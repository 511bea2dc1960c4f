//! The record shapes of the two resources, their ghost images, and the
//! defaulting / partial-update rules that the handlers apply to them.

use vstd::prelude::*;

verus! {

/// A row of the `todos` table.
pub struct Task {
    pub id: i32,
    pub title: String,
    pub completed: bool,
    pub description: String,
}

/// Ghost image of a task row.
#[verifier::ext_equal]
pub ghost struct TaskView {
    pub id: int,
    pub title: Seq<char>,
    pub completed: bool,
    pub description: Seq<char>,
}

impl View for Task {
    type V = TaskView;

    open spec fn view(&self) -> TaskView {
        TaskView {
            id: self.id as int,
            title: self.title@,
            completed: self.completed,
            description: self.description@,
        }
    }
}

/// The body of a task create or partial-update request: every field optional.
pub struct TaskPatch {
    pub title: Option<String>,
    pub completed: Option<bool>,
    pub description: Option<String>,
}

/// Ghost image of a task request body.
#[verifier::ext_equal]
pub ghost struct TaskPatchView {
    pub title: Option<Seq<char>>,
    pub completed: Option<bool>,
    pub description: Option<Seq<char>>,
}

impl View for TaskPatch {
    type V = TaskPatchView;

    open spec fn view(&self) -> TaskPatchView {
        TaskPatchView {
            title: match self.title {
                Some(t) => Some(t@),
                None => None,
            },
            completed: self.completed,
            description: match self.description {
                Some(d) => Some(d@),
                None => None,
            },
        }
    }
}

/// A row of the `Users` table.
pub struct User {
    pub id: i32,
    pub name: String,
    pub password: String,
}

/// Ghost image of a user row.
#[verifier::ext_equal]
pub ghost struct UserView {
    pub id: int,
    pub name: Seq<char>,
    pub password: Seq<char>,
}

impl View for User {
    type V = UserView;

    open spec fn view(&self) -> UserView {
        UserView { id: self.id as int, name: self.name@, password: self.password@ }
    }
}

/// The body of a registration request: both fields required.
pub struct NewUser {
    pub name: String,
    pub password: String,
}

/// The body of a user partial-update request: every field optional.
pub struct UserPatch {
    pub name: Option<String>,
    pub password: Option<String>,
}

/// Ghost image of a user partial-update body.
#[verifier::ext_equal]
pub ghost struct UserPatchView {
    pub name: Option<Seq<char>>,
    pub password: Option<Seq<char>>,
}

impl View for UserPatch {
    type V = UserPatchView;

    open spec fn view(&self) -> UserPatchView {
        UserPatchView {
            name: match self.name {
                Some(n) => Some(n@),
                None => None,
            },
            password: match self.password {
                Some(p) => Some(p@),
                None => None,
            },
        }
    }
}

/// What a registration reports back: the id and name, never the password.
pub struct UserSummary {
    pub id: i32,
    pub name: String,
}

/// The title a task gets when the request names none.
pub open spec fn default_title() -> Seq<char> {
    "Untitled"@
}

/// The description a task gets when the request names none.
pub open spec fn default_description() -> Seq<char> {
    ""@
}

/// An optional text field, or the fallback when it is absent.
pub open spec fn or_text(opt: Option<Seq<char>>, fallback: Seq<char>) -> Seq<char> {
    match opt {
        Some(t) => t,
        None => fallback,
    }
}

/// An optional flag, or the fallback when it is absent.
pub open spec fn or_flag(opt: Option<bool>, fallback: bool) -> bool {
    match opt {
        Some(b) => b,
        None => fallback,
    }
}

/// The row a create request inserts: absent fields get the documented defaults
/// before insertion, never null.
pub open spec fn task_from_create(id: int, p: TaskPatchView) -> TaskView {
    TaskView {
        id,
        title: or_text(p.title, default_title()),
        completed: or_flag(p.completed, false),
        description: or_text(p.description, default_description()),
    }
}

/// A partial update of a task: fields present in the request replace the
/// stored ones, absent fields keep their prior values, and the id never moves.
pub open spec fn task_patched(t: TaskView, p: TaskPatchView) -> TaskView {
    TaskView {
        id: t.id,
        title: or_text(p.title, t.title),
        completed: or_flag(p.completed, t.completed),
        description: or_text(p.description, t.description),
    }
}

/// A partial update of a user: present fields replace, absent fields are
/// preserved, and the id never moves.
pub open spec fn user_patched(u: UserView, p: UserPatchView) -> UserView {
    UserView {
        id: u.id,
        name: or_text(p.name, u.name),
        password: or_text(p.password, u.password),
    }
}

/// The concrete column values a task create request inserts, defaults applied.
pub fn apply_task_defaults(p: TaskPatch) -> (r: (String, bool, String))
    ensures
        r.0@ == or_text(p@.title, default_title()),
        r.1 == or_flag(p@.completed, false),
        r.2@ == or_text(p@.description, default_description()),
{
    let title = match p.title {
        Some(t) => t,
        None => "Untitled".to_owned(),
    };
    let completed = match p.completed {
        Some(b) => b,
        None => false,
    };
    let description = match p.description {
        Some(d) => d,
        None => "".to_owned(),
    };
    (title, completed, description)
}

impl Clone for Task {
    /// An exact copy of the row, as handing a fetched row outward requires.
    fn clone(&self) -> (r: Task)
        ensures
            r == *self,
    {
        Task {
            id: self.id,
            title: self.title.clone(),
            completed: self.completed,
            description: self.description.clone(),
        }
    }
}

impl Clone for User {
    /// An exact copy of the row, as handing a fetched row outward requires.
    fn clone(&self) -> (r: User)
        ensures
            r == *self,
    {
        User { id: self.id, name: self.name.clone(), password: self.password.clone() }
    }
}

} // verus!
