use vstd::prelude::*;
use crate::entity::{Project, ProjectView, Timestamp, User, UserView};

verus! {

/// A project as clients see it: the project's own fields and the nickname of
/// its owner.
#[derive(Clone, Debug, PartialEq, Eq)]
pub struct ProjectVo {
    pub id: i32,
    pub name: String,
    pub repo: String,
    pub repo_id: i32,
    pub description: String,
    pub created_at: Timestamp,
    pub updated_at: Timestamp,
    pub user_id: i32,
    pub username: String,
}

pub struct ProjectVoView {
    pub id: int,
    pub name: Seq<char>,
    pub repo: Seq<char>,
    pub repo_id: int,
    pub description: Seq<char>,
    pub created_at: int,
    pub updated_at: int,
    pub user_id: int,
    pub username: Seq<char>,
}

impl View for ProjectVo {
    type V = ProjectVoView;

    open spec fn view(&self) -> ProjectVoView {
        ProjectVoView {
            id: self.id as int,
            name: self.name@,
            repo: self.repo@,
            repo_id: self.repo_id as int,
            description: self.description@,
            created_at: self.created_at as int,
            updated_at: self.updated_at as int,
            user_id: self.user_id as int,
            username: self.username@,
        }
    }
}

impl ProjectVoView {
    /// The view of `project` for clients, given the nickname of its owner.
    pub open spec fn of(project: ProjectView, username: Seq<char>) -> ProjectVoView {
        ProjectVoView {
            id: project.id,
            name: project.name,
            repo: project.repo,
            repo_id: project.repo_id,
            description: project.description,
            created_at: project.created_at,
            updated_at: project.updated_at,
            user_id: project.user_id,
            username,
        }
    }
}

impl ProjectVo {
    /// Copies every field of `project` and attaches the owner's nickname.
    pub fn new(project: Project, username: String) -> (vo: ProjectVo)
        ensures
            vo@ == ProjectVoView::of(project@, username@),
    {
        ProjectVo {
            id: project.id,
            name: project.name,
            repo: project.repo,
            repo_id: project.repo_id,
            description: project.description,
            created_at: project.created_at,
            updated_at: project.updated_at,
            user_id: project.user_id,
            username,
        }
    }
}

/// An account as clients see it: everything but the password digest.
#[derive(Clone, Debug, PartialEq, Eq)]
pub struct UserVo {
    pub id: i32,
    pub email: String,
    pub nickname: String,
    pub created_at: Timestamp,
    pub updated_at: Timestamp,
}

pub struct UserVoView {
    pub id: int,
    pub email: Seq<char>,
    pub nickname: Seq<char>,
    pub created_at: int,
    pub updated_at: int,
}

impl View for UserVo {
    type V = UserVoView;

    open spec fn view(&self) -> UserVoView {
        UserVoView {
            id: self.id as int,
            email: self.email@,
            nickname: self.nickname@,
            created_at: self.created_at as int,
            updated_at: self.updated_at as int,
        }
    }
}

impl UserVoView {
    /// The view of `user` for clients.
    pub open spec fn of(user: UserView) -> UserVoView {
        UserVoView {
            id: user.id,
            email: user.email,
            nickname: user.nickname,
            created_at: user.created_at,
            updated_at: user.updated_at,
        }
    }
}

impl vstd::std_specs::convert::FromSpecImpl<User> for UserVo {
    open spec fn obeys_from_spec() -> bool {
        true
    }

    open spec fn from_spec(value: User) -> UserVo {
        UserVo {
            id: value.id,
            email: value.email,
            nickname: value.nickname,
            created_at: value.created_at,
            updated_at: value.updated_at,
        }
    }
}

impl From<User> for UserVo {
    /// Copies id, email, nickname and the two stamps of `value`; the
    /// password digest is left behind.
    fn from(value: User) -> (vo: UserVo)
        ensures
            vo@ == UserVoView::of(value@),
    {
        UserVo {
            id: value.id,
            email: value.email,
            nickname: value.nickname,
            created_at: value.created_at,
            updated_at: value.updated_at,
        }
    }
}

} // verus!
