//! Exact models of the two relational tables the handlers drive. Each
//! executable method stands for one SQL statement (SELECT, INSERT .. RETURNING,
//! UPDATE .. WHERE id, DELETE .. WHERE id) and states precisely what that
//! statement does to the table's rows. The tables own their rows; ids are
//! assigned by the store, positive, unique, and never reused.

use vstd::prelude::*;

use crate::model::{Task, TaskPatch, TaskView, User, UserPatch, UserView};

verus! {

/// The rows of a task table, as ghost images, in storage order.
pub open spec fn tasks_view(v: Seq<Task>) -> Seq<TaskView> {
    v.map(|i: int, t: Task| t@)
}

/// The rows of a user table, as ghost images, in storage order.
pub open spec fn users_view(v: Seq<User>) -> Seq<UserView> {
    v.map(|i: int, u: User| u@)
}

/// The id column of a task table.
pub open spec fn task_ids(s: Seq<TaskView>) -> Seq<int> {
    s.map(|i: int, t: TaskView| t.id)
}

/// The id column of a user table.
pub open spec fn user_ids(s: Seq<UserView>) -> Seq<int> {
    s.map(|i: int, u: UserView| u.id)
}

/// No value occurs twice in the sequence.
pub open spec fn distinct(ids: Seq<int>) -> bool {
    forall|i: int, j: int|
        0 <= i < ids.len() && 0 <= j < ids.len() && i != j ==> ids[i] != ids[j]
}

/// How many times a value occurs in the sequence.
pub open spec fn count_of(ids: Seq<int>, x: int) -> nat
    decreases ids.len(),
{
    if ids.len() == 0 {
        0
    } else {
        count_of(ids.drop_last(), x) + (if ids.last() == x {
            1nat
        } else {
            0nat
        })
    }
}

/// The position of a value in the sequence; meaningful only when it occurs,
/// and unique when the sequence is distinct.
pub open spec fn index_of_id(ids: Seq<int>, x: int) -> int {
    choose|i: int| 0 <= i < ids.len() && ids[i] == x
}

/// The task row carrying the given id; meaningful only when the id occurs.
pub open spec fn task_row(s: Seq<TaskView>, id: int) -> TaskView {
    s[index_of_id(task_ids(s), id)]
}

/// The user row carrying the given id; meaningful only when the id occurs.
pub open spec fn user_row(s: Seq<UserView>, id: int) -> UserView {
    s[index_of_id(user_ids(s), id)]
}

/// The task table after a delete of the given id: the row carrying it is
/// removed when one does, and the table is unchanged when none does.
pub open spec fn after_delete_task(s: Seq<TaskView>, id: int) -> Seq<TaskView> {
    if task_ids(s).contains(id) {
        s.remove(index_of_id(task_ids(s), id))
    } else {
        s
    }
}

/// The user table after a delete of the given id: the row carrying it is
/// removed when one does, and the table is unchanged when none does.
pub open spec fn after_delete_user(s: Seq<UserView>, id: int) -> Seq<UserView> {
    if user_ids(s).contains(id) {
        s.remove(index_of_id(user_ids(s), id))
    } else {
        s
    }
}

/// After a delete no row carries the deleted id: the id column was distinct,
/// so removing the row that carried it removes its only occurrence.
pub proof fn lemma_after_delete_gone(s: Seq<TaskView>, id: int)
    requires
        distinct(task_ids(s)),
    ensures
        !task_ids(after_delete_task(s, id)).contains(id),
{
    if task_ids(s).contains(id) {
        let ids = task_ids(s);
        let idx = index_of_id(ids, id);
        assert(0 <= idx < ids.len() && ids[idx] == id);
        let post = s.remove(idx);
        s.remove_ensures(idx);
        if task_ids(post).contains(id) {
            let j = choose|j: int| 0 <= j < task_ids(post).len() && task_ids(post)[j] == id;
            assert(task_ids(post)[j] == post[j].id);
            let j0: int = if j < idx {
                j
            } else {
                j + 1
            };
            assert(post[j] == s[j0]);
            assert(ids[j0] == s[j0].id);
            assert(ids[idx] == s[idx].id);
            assert(false);
        }
    }
}

/// In a distinct sequence, a position holding a value is the position
/// `index_of_id` picks.
pub proof fn lemma_index_of_id(ids: Seq<int>, x: int, i: int)
    requires
        distinct(ids),
        0 <= i < ids.len(),
        ids[i] == x,
    ensures
        ids.contains(x),
        index_of_id(ids, x) == i,
{
    assert(ids.contains(x));
    let j = index_of_id(ids, x);
    assert(0 <= j < ids.len() && ids[j] == x);
}

/// A value absent from a sequence occurs zero times in it.
pub proof fn lemma_absent_count(ids: Seq<int>, x: int)
    requires
        !ids.contains(x),
    ensures
        count_of(ids, x) == 0,
    decreases ids.len(),
{
    if ids.len() > 0 {
        assert(!ids.drop_last().contains(x)) by {
            if ids.drop_last().contains(x) {
                let j = choose|j: int|
                    0 <= j < ids.drop_last().len() && ids.drop_last()[j] == x;
                assert(ids[j] == x);
            }
        }
        lemma_absent_count(ids.drop_last(), x);
        assert(ids.last() != x);
    }
}

/// A value present in a distinct sequence occurs in it exactly once.
pub proof fn lemma_distinct_count(ids: Seq<int>, x: int)
    requires
        distinct(ids),
        ids.contains(x),
    ensures
        count_of(ids, x) == 1,
    decreases ids.len(),
{
    let i = choose|i: int| 0 <= i < ids.len() && ids[i] == x;
    if ids.last() == x {
        assert(!ids.drop_last().contains(x)) by {
            if ids.drop_last().contains(x) {
                let j = choose|j: int|
                    0 <= j < ids.drop_last().len() && ids.drop_last()[j] == x;
                assert(ids[j] == x && ids[ids.len() - 1] == x && j != ids.len() - 1);
            }
        }
        lemma_absent_count(ids.drop_last(), x);
    } else {
        assert(i != ids.len() - 1);
        assert(ids.drop_last()[i] == x);
        assert(ids.drop_last().contains(x));
        assert(distinct(ids.drop_last())) by {
            assert forall|a: int, b: int|
                0 <= a < ids.drop_last().len() && 0 <= b < ids.drop_last().len() && a != b
                implies ids.drop_last()[a] != ids.drop_last()[b] by {
                assert(ids.drop_last()[a] == ids[a] && ids.drop_last()[b] == ids[b]);
            }
        }
        lemma_distinct_count(ids.drop_last(), x);
    }
}

/// The `todos` table: rows plus the sequence counter that assigns fresh ids.
pub struct TaskTable {
    rows: Vec<Task>,
    next_id: i32,
}

impl View for TaskTable {
    type V = Seq<TaskView>;

    closed spec fn view(&self) -> Seq<TaskView> {
        tasks_view(self.rows@)
    }
}

impl TaskTable {
    /// The next id the table will assign.
    pub closed spec fn next_id_spec(&self) -> int {
        self.next_id as int
    }

    /// Table invariant: ids are positive, below the counter, and distinct.
    pub closed spec fn wf(&self) -> bool {
        &&& 1 <= self.next_id
        &&& forall|i: int|
            0 <= i < self@.len() ==> 1 <= (#[trigger] self@[i]).id < self.next_id as int
        &&& distinct(task_ids(self@))
    }

    /// The counter has room to assign one more id.
    pub open spec fn can_insert(&self) -> bool {
        self.next_id_spec() < i32::MAX as int
    }

    /// What the invariant guarantees about the visible rows.
    pub proof fn lemma_wf(&self)
        requires
            self.wf(),
        ensures
            distinct(task_ids(self@)),
            forall|i: int|
                0 <= i < self@.len() ==> 1 <= (#[trigger] self@[i]).id < self.next_id_spec(),
    {
    }

    /// An empty table whose first assigned id will be 1.
    pub fn new() -> (t: TaskTable)
        ensures
            t.wf(),
            t@ == Seq::<TaskView>::empty(),
            task_ids(t@) == Seq::<int>::empty(),
            t.next_id_spec() == 1,
    {
        let t = TaskTable { rows: Vec::new(), next_id: 1 };
        proof {
            assert(t@ =~= Seq::<TaskView>::empty());
            assert(task_ids(t@) =~= Seq::<int>::empty());
        }
        t
    }

    /// One INSERT .. RETURNING statement: appends a row under a fresh id and
    /// returns it.
    pub fn insert_row(&mut self, title: String, completed: bool, description: String) -> (t: Task)
        requires
            old(self).wf(),
            old(self).can_insert(),
        ensures
            final(self).wf(),
            final(self).next_id_spec() == old(self).next_id_spec() + 1,
            t@ == (TaskView {
                id: old(self).next_id_spec(),
                title: title@,
                completed: completed,
                description: description@,
            }),
            1 <= t@.id,
            !task_ids(old(self)@).contains(t@.id),
            final(self)@ == old(self)@.push(t@),
            task_ids(final(self)@) == task_ids(old(self)@).push(t@.id),
            task_ids(final(self)@).contains(t@.id),
    {
        let id = self.next_id;
        self.next_id = self.next_id + 1;
        let t = Task { id, title, completed, description };
        let row = t.clone();
        self.rows.push(row);
        proof {
            let pre = old(self)@;
            let ids0 = task_ids(pre);
            assert(self@ =~= pre.push(t@));
            assert(task_ids(self@) =~= ids0.push(id as int));
            assert(task_ids(self@).last() == id as int);
            assert(task_ids(self@).contains(id as int));
            assert forall|i: int| 0 <= i < ids0.len() implies ids0[i] != id as int by {
                assert(ids0[i] == pre[i].id);
            }
            assert(!ids0.contains(id as int));
            assert(distinct(task_ids(self@))) by {
                let ids1 = task_ids(self@);
                assert forall|a: int, b: int|
                    0 <= a < ids1.len() && 0 <= b < ids1.len() && a != b
                    implies ids1[a] != ids1[b] by {
                    if a < ids0.len() && b < ids0.len() {
                        assert(ids1[a] == ids0[a] && ids1[b] == ids0[b]);
                    } else if a == ids0.len() {
                        assert(ids1[b] == ids0[b] && ids1[a] == id as int);
                    } else {
                        assert(ids1[a] == ids0[a] && ids1[b] == id as int);
                    }
                }
            }
        }
        t
    }

    /// One SELECT of every row: the table's rows, in order, as copies.
    pub fn select_all(&self) -> (r: Vec<Task>)
        requires
            self.wf(),
        ensures
            tasks_view(r@) == self@,
    {
        let mut out: Vec<Task> = Vec::new();
        let mut i: usize = 0;
        while i < self.rows.len()
            invariant
                i <= self.rows.len(),
                out@.len() == i as int,
                forall|j: int| 0 <= j < i as int ==> out@[j] == self.rows@[j],
            decreases self.rows.len() - i,
        {
            let row = (&self.rows[i]).clone();
            out.push(row);
            i = i + 1;
        }
        proof {
            assert(tasks_view(out@) =~= self@);
        }
        out
    }

    /// One SELECT .. WHERE id fetching at most one row: a copy of the row
    /// carrying the id, or nothing when no row carries it.
    pub fn find(&self, id: i32) -> (r: Option<Task>)
        requires
            self.wf(),
        ensures
            match r {
                Some(t) => task_ids(self@).contains(id as int) && t@ == task_row(
                    self@,
                    id as int,
                ),
                None => !task_ids(self@).contains(id as int),
            },
    {
        let ghost ids = task_ids(self@);
        let mut i: usize = 0;
        while i < self.rows.len()
            invariant
                self.wf(),
                ids == task_ids(self@),
                i <= self.rows.len(),
                forall|j: int| 0 <= j < i as int ==> ids[j] != id as int,
            decreases self.rows.len() - i,
        {
            if self.rows[i].id == id {
                let row = (&self.rows[i]).clone();
                proof {
                    assert(ids[i as int] == self@[i as int].id);
                    lemma_index_of_id(ids, id as int, i as int);
                }
                return Some(row);
            }
            proof {
                assert(ids[i as int] == self@[i as int].id);
            }
            i = i + 1;
        }
        proof {
            assert(!ids.contains(id as int)) by {
                if ids.contains(id as int) {
                    let j = choose|j: int| 0 <= j < ids.len() && ids[j] == id as int;
                }
            }
        }
        None
    }

    /// One UPDATE .. WHERE id statement with coalescing columns: fields the
    /// request names replace the stored ones, absent fields keep their prior
    /// values. Returns how many rows were affected: one exactly when a row
    /// carries the id, zero otherwise.
    pub fn coalesce_update_row(&mut self, id: i32, patch: &TaskPatch) -> (n: usize)
        requires
            old(self).wf(),
        ensures
            final(self).wf(),
            final(self).next_id_spec() == old(self).next_id_spec(),
            task_ids(final(self)@) == task_ids(old(self)@),
            n <= 1,
            (n == 1) == task_ids(old(self)@).contains(id as int),
            n == 0 ==> final(self)@ == old(self)@,
            n == 1 ==> final(self)@ == old(self)@.update(
                index_of_id(task_ids(old(self)@), id as int),
                crate::model::task_patched(task_row(old(self)@, id as int), patch@),
            ),
    {
        let ghost pre = self@;
        let ghost ids = task_ids(pre);
        let mut i: usize = 0;
        while i < self.rows.len()
            invariant
                self.wf(),
                pre == old(self)@,
                self@ == pre,
                self.next_id == old(self).next_id,
                ids == task_ids(pre),
                i <= self.rows.len(),
                forall|j: int| 0 <= j < i as int ==> ids[j] != id as int,
            decreases self.rows.len() - i,
        {
            if self.rows[i].id == id {
                proof {
                    assert(ids[i as int] == pre[i as int].id);
                    lemma_index_of_id(ids, id as int, i as int);
                }
                let row = &self.rows[i];
                let updated = Task {
                    id: row.id,
                    title: match &patch.title {
                        Some(t) => t.clone(),
                        None => row.title.clone(),
                    },
                    completed: match patch.completed {
                        Some(c) => c,
                        None => row.completed,
                    },
                    description: match &patch.description {
                        Some(d) => d.clone(),
                        None => row.description.clone(),
                    },
                };
                proof {
                    assert(updated@ == crate::model::task_patched(pre[i as int], patch@));
                }
                self.rows.set(i, updated);
                proof {
                    assert(self@ =~= pre.update(i as int, updated@));
                    assert(task_ids(self@) =~= ids);
                    assert forall|k: int|
                        0 <= k < self@.len() implies 1 <= (#[trigger] self@[k]).id
                        < self.next_id as int by {
                        assert(self@[k].id == pre[k].id);
                    }
                }
                return 1;
            }
            proof {
                assert(ids[i as int] == pre[i as int].id);
            }
            i = i + 1;
        }
        proof {
            assert(!ids.contains(id as int)) by {
                if ids.contains(id as int) {
                    let j = choose|j: int| 0 <= j < ids.len() && ids[j] == id as int;
                }
            }
        }
        0
    }

    /// One DELETE .. WHERE id statement: removes the row carrying the id if
    /// any. Returns how many rows were affected: one exactly when a row
    /// carried the id, zero otherwise; either way no row carries it afterward.
    pub fn delete_row(&mut self, id: i32) -> (n: usize)
        requires
            old(self).wf(),
        ensures
            final(self).wf(),
            final(self).next_id_spec() == old(self).next_id_spec(),
            n <= 1,
            (n == 1) == task_ids(old(self)@).contains(id as int),
            final(self)@ == after_delete_task(old(self)@, id as int),
            !task_ids(final(self)@).contains(id as int),
    {
        let ghost pre = self@;
        let ghost ids = task_ids(pre);
        let mut i: usize = 0;
        while i < self.rows.len()
            invariant
                self.wf(),
                pre == old(self)@,
                self@ == pre,
                self.next_id == old(self).next_id,
                ids == task_ids(pre),
                i <= self.rows.len(),
                forall|j: int| 0 <= j < i as int ==> ids[j] != id as int,
            decreases self.rows.len() - i,
        {
            if self.rows[i].id == id {
                proof {
                    assert(ids[i as int] == pre[i as int].id);
                    lemma_index_of_id(ids, id as int, i as int);
                }
                let _removed = self.rows.remove(i);
                proof {
                    let post = self@;
                    assert(post =~= pre.remove(i as int)) by {
                        assert forall|k: int| 0 <= k < post.len() implies post[k] == pre.remove(
                            i as int,
                        )[k] by {
                            if k < i as int {
                                assert(pre.remove(i as int)[k] == pre[k]);
                            } else {
                                assert(pre.remove(i as int)[k] == pre[k + 1]);
                            }
                        }
                    }
                    assert forall|k: int|
                        0 <= k < post.len() implies 1 <= (#[trigger] post[k]).id
                        < self.next_id as int && post[k].id != id as int by {
                        let k0: int = if k < i as int {
                            k
                        } else {
                            k + 1
                        };
                        assert(post[k] == pre[k0]);
                        assert(ids[k0] == pre[k0].id);
                        assert(ids[i as int] == pre[i as int].id);
                        assert(k0 != i as int);
                    }
                    assert(distinct(task_ids(post))) by {
                        assert forall|a: int, b: int|
                            0 <= a < post.len() && 0 <= b < post.len() && a != b
                            implies task_ids(post)[a] != task_ids(post)[b] by {
                            let a0: int = if a < i as int { a } else { a + 1 };
                            let b0: int = if b < i as int { b } else { b + 1 };
                            assert(task_ids(post)[a] == post[a].id && post[a] == pre[a0]);
                            assert(task_ids(post)[b] == post[b].id && post[b] == pre[b0]);
                            assert(ids[a0] == pre[a0].id && ids[b0] == pre[b0].id);
                        }
                    }
                    assert(!task_ids(post).contains(id as int)) by {
                        if task_ids(post).contains(id as int) {
                            let j = choose|j: int|
                                0 <= j < task_ids(post).len() && task_ids(post)[j] == id as int;
                            assert(task_ids(post)[j] == post[j].id);
                        }
                    }
                }
                return 1;
            }
            proof {
                assert(ids[i as int] == pre[i as int].id);
            }
            i = i + 1;
        }
        proof {
            assert(!ids.contains(id as int)) by {
                if ids.contains(id as int) {
                    let j = choose|j: int| 0 <= j < ids.len() && ids[j] == id as int;
                }
            }
        }
        0
    }
}

/// The `Users` table: rows plus the sequence counter that assigns fresh ids.
pub struct UserTable {
    rows: Vec<User>,
    next_id: i32,
}

impl View for UserTable {
    type V = Seq<UserView>;

    closed spec fn view(&self) -> Seq<UserView> {
        users_view(self.rows@)
    }
}

impl UserTable {
    /// The next id the table will assign.
    pub closed spec fn next_id_spec(&self) -> int {
        self.next_id as int
    }

    /// Table invariant: ids are positive, below the counter, and distinct.
    pub closed spec fn wf(&self) -> bool {
        &&& 1 <= self.next_id
        &&& forall|i: int|
            0 <= i < self@.len() ==> 1 <= (#[trigger] self@[i]).id < self.next_id as int
        &&& distinct(user_ids(self@))
    }

    /// The counter has room to assign one more id.
    pub open spec fn can_insert(&self) -> bool {
        self.next_id_spec() < i32::MAX as int
    }

    /// What the invariant guarantees about the visible rows.
    pub proof fn lemma_wf(&self)
        requires
            self.wf(),
        ensures
            distinct(user_ids(self@)),
            forall|i: int|
                0 <= i < self@.len() ==> 1 <= (#[trigger] self@[i]).id < self.next_id_spec(),
    {
    }

    /// An empty table whose first assigned id will be 1.
    pub fn new() -> (t: UserTable)
        ensures
            t.wf(),
            t@ == Seq::<UserView>::empty(),
            user_ids(t@) == Seq::<int>::empty(),
            t.next_id_spec() == 1,
    {
        let t = UserTable { rows: Vec::new(), next_id: 1 };
        proof {
            assert(t@ =~= Seq::<UserView>::empty());
            assert(user_ids(t@) =~= Seq::<int>::empty());
        }
        t
    }

    /// One INSERT .. RETURNING statement: appends a row under a fresh id and
    /// returns it.
    pub fn insert_row(&mut self, name: String, password: String) -> (u: User)
        requires
            old(self).wf(),
            old(self).can_insert(),
        ensures
            final(self).wf(),
            final(self).next_id_spec() == old(self).next_id_spec() + 1,
            u@ == (UserView {
                id: old(self).next_id_spec(),
                name: name@,
                password: password@,
            }),
            1 <= u@.id,
            !user_ids(old(self)@).contains(u@.id),
            final(self)@ == old(self)@.push(u@),
            user_ids(final(self)@) == user_ids(old(self)@).push(u@.id),
            user_ids(final(self)@).contains(u@.id),
    {
        let id = self.next_id;
        self.next_id = self.next_id + 1;
        let u = User { id, name, password };
        let row = u.clone();
        self.rows.push(row);
        proof {
            let pre = old(self)@;
            let ids0 = user_ids(pre);
            assert(self@ =~= pre.push(u@));
            assert(user_ids(self@) =~= ids0.push(id as int));
            assert(user_ids(self@).last() == id as int);
            assert(user_ids(self@).contains(id as int));
            assert forall|i: int| 0 <= i < ids0.len() implies ids0[i] != id as int by {
                assert(ids0[i] == pre[i].id);
            }
            assert(!ids0.contains(id as int));
            assert(distinct(user_ids(self@))) by {
                let ids1 = user_ids(self@);
                assert forall|a: int, b: int|
                    0 <= a < ids1.len() && 0 <= b < ids1.len() && a != b
                    implies ids1[a] != ids1[b] by {
                    if a < ids0.len() && b < ids0.len() {
                        assert(ids1[a] == ids0[a] && ids1[b] == ids0[b]);
                    } else if a == ids0.len() {
                        assert(ids1[b] == ids0[b] && ids1[a] == id as int);
                    } else {
                        assert(ids1[a] == ids0[a] && ids1[b] == id as int);
                    }
                }
            }
        }
        u
    }

    /// One SELECT .. WHERE id fetching at most one row: a copy of the row
    /// carrying the id, or nothing when no row carries it.
    pub fn find(&self, id: i32) -> (r: Option<User>)
        requires
            self.wf(),
        ensures
            match r {
                Some(u) => user_ids(self@).contains(id as int) && u@ == user_row(
                    self@,
                    id as int,
                ),
                None => !user_ids(self@).contains(id as int),
            },
    {
        let ghost ids = user_ids(self@);
        let mut i: usize = 0;
        while i < self.rows.len()
            invariant
                self.wf(),
                ids == user_ids(self@),
                i <= self.rows.len(),
                forall|j: int| 0 <= j < i as int ==> ids[j] != id as int,
            decreases self.rows.len() - i,
        {
            if self.rows[i].id == id {
                let row = (&self.rows[i]).clone();
                proof {
                    assert(ids[i as int] == self@[i as int].id);
                    lemma_index_of_id(ids, id as int, i as int);
                }
                return Some(row);
            }
            proof {
                assert(ids[i as int] == self@[i as int].id);
            }
            i = i + 1;
        }
        proof {
            assert(!ids.contains(id as int)) by {
                if ids.contains(id as int) {
                    let j = choose|j: int| 0 <= j < ids.len() && ids[j] == id as int;
                }
            }
        }
        None
    }

    /// One UPDATE .. WHERE id statement whose columns coalesce with the stored
    /// values: fields the request names replace the stored ones, absent fields
    /// keep their prior values. Returns how many rows were affected: one
    /// exactly when a row carries the id, zero otherwise.
    pub fn coalesce_update_row(&mut self, id: i32, patch: &UserPatch) -> (n: usize)
        requires
            old(self).wf(),
        ensures
            final(self).wf(),
            final(self).next_id_spec() == old(self).next_id_spec(),
            user_ids(final(self)@) == user_ids(old(self)@),
            n <= 1,
            (n == 1) == user_ids(old(self)@).contains(id as int),
            n == 0 ==> final(self)@ == old(self)@,
            n == 1 ==> final(self)@ == old(self)@.update(
                index_of_id(user_ids(old(self)@), id as int),
                crate::model::user_patched(user_row(old(self)@, id as int), patch@),
            ),
    {
        let ghost pre = self@;
        let ghost ids = user_ids(pre);
        let mut i: usize = 0;
        while i < self.rows.len()
            invariant
                self.wf(),
                pre == old(self)@,
                self@ == pre,
                self.next_id == old(self).next_id,
                ids == user_ids(pre),
                i <= self.rows.len(),
                forall|j: int| 0 <= j < i as int ==> ids[j] != id as int,
            decreases self.rows.len() - i,
        {
            if self.rows[i].id == id {
                proof {
                    assert(ids[i as int] == pre[i as int].id);
                    lemma_index_of_id(ids, id as int, i as int);
                }
                let row = &self.rows[i];
                let updated = User {
                    id: row.id,
                    name: match &patch.name {
                        Some(n) => n.clone(),
                        None => row.name.clone(),
                    },
                    password: match &patch.password {
                        Some(p) => p.clone(),
                        None => row.password.clone(),
                    },
                };
                proof {
                    assert(updated@ == crate::model::user_patched(pre[i as int], patch@));
                }
                self.rows.set(i, updated);
                proof {
                    assert(self@ =~= pre.update(i as int, updated@));
                    assert(user_ids(self@) =~= ids);
                    assert forall|k: int|
                        0 <= k < self@.len() implies 1 <= (#[trigger] self@[k]).id
                        < self.next_id as int by {
                        assert(self@[k].id == pre[k].id);
                    }
                }
                return 1;
            }
            proof {
                assert(ids[i as int] == pre[i as int].id);
            }
            i = i + 1;
        }
        proof {
            assert(!ids.contains(id as int)) by {
                if ids.contains(id as int) {
                    let j = choose|j: int| 0 <= j < ids.len() && ids[j] == id as int;
                }
            }
        }
        0
    }

    /// One DELETE .. WHERE id statement: removes the row carrying the id if
    /// any. Returns how many rows were affected: one exactly when a row
    /// carried the id, zero otherwise; either way no row carries it afterward.
    pub fn delete_row(&mut self, id: i32) -> (n: usize)
        requires
            old(self).wf(),
        ensures
            final(self).wf(),
            final(self).next_id_spec() == old(self).next_id_spec(),
            n <= 1,
            (n == 1) == user_ids(old(self)@).contains(id as int),
            final(self)@ == after_delete_user(old(self)@, id as int),
            !user_ids(final(self)@).contains(id as int),
    {
        let ghost pre = self@;
        let ghost ids = user_ids(pre);
        let mut i: usize = 0;
        while i < self.rows.len()
            invariant
                self.wf(),
                pre == old(self)@,
                self@ == pre,
                self.next_id == old(self).next_id,
                ids == user_ids(pre),
                i <= self.rows.len(),
                forall|j: int| 0 <= j < i as int ==> ids[j] != id as int,
            decreases self.rows.len() - i,
        {
            if self.rows[i].id == id {
                proof {
                    assert(ids[i as int] == pre[i as int].id);
                    lemma_index_of_id(ids, id as int, i as int);
                }
                let _removed = self.rows.remove(i);
                proof {
                    let post = self@;
                    assert(post =~= pre.remove(i as int)) by {
                        assert forall|k: int| 0 <= k < post.len() implies post[k] == pre.remove(
                            i as int,
                        )[k] by {
                            if k < i as int {
                                assert(pre.remove(i as int)[k] == pre[k]);
                            } else {
                                assert(pre.remove(i as int)[k] == pre[k + 1]);
                            }
                        }
                    }
                    assert forall|k: int|
                        0 <= k < post.len() implies 1 <= (#[trigger] post[k]).id
                        < self.next_id as int && post[k].id != id as int by {
                        let k0: int = if k < i as int {
                            k
                        } else {
                            k + 1
                        };
                        assert(post[k] == pre[k0]);
                        assert(ids[k0] == pre[k0].id);
                        assert(ids[i as int] == pre[i as int].id);
                        assert(k0 != i as int);
                    }
                    assert(distinct(user_ids(post))) by {
                        assert forall|a: int, b: int|
                            0 <= a < post.len() && 0 <= b < post.len() && a != b
                            implies user_ids(post)[a] != user_ids(post)[b] by {
                            let a0: int = if a < i as int { a } else { a + 1 };
                            let b0: int = if b < i as int { b } else { b + 1 };
                            assert(user_ids(post)[a] == post[a].id && post[a] == pre[a0]);
                            assert(user_ids(post)[b] == post[b].id && post[b] == pre[b0]);
                            assert(ids[a0] == pre[a0].id && ids[b0] == pre[b0].id);
                        }
                    }
                    assert(!user_ids(post).contains(id as int)) by {
                        if user_ids(post).contains(id as int) {
                            let j = choose|j: int|
                                0 <= j < user_ids(post).len() && user_ids(post)[j] == id as int;
                            assert(user_ids(post)[j] == post[j].id);
                        }
                    }
                }
                return 1;
            }
            proof {
                assert(ids[i as int] == pre[i as int].id);
            }
            i = i + 1;
        }
        proof {
            assert(!ids.contains(id as int)) by {
                if ids.contains(id as int) {
                    let j = choose|j: int| 0 <= j < ids.len() && ids[j] == id as int;
                }
            }
        }
        0
    }
}

} // verus!
