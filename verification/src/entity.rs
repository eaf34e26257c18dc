use vstd::prelude::*;
use crate::table::Row;
use crate::text::{copy_strings, texts};

verus! {

/// A point in time, in microseconds since the Unix epoch.
pub type Timestamp = i64;

/// A JSON document in serialized form. The store keeps and returns it as it
/// is and never looks inside.
#[derive(Clone, Debug, PartialEq, Eq)]
pub struct Json {
    pub text: String,
}

impl View for Json {
    type V = Seq<char>;

    open spec fn view(&self) -> Seq<char> {
        self.text@
    }
}

impl Json {
    /// The document `[]`, which a config holds when it is created without
    /// values.
    pub open spec fn empty_array() -> Seq<char> {
        "[]"@
    }

    pub fn new(text: String) -> (j: Json)
        ensures
            j@ == text@,
    {
        Json { text }
    }

    pub fn default_values() -> (j: Json)
        ensures
            j@ == Self::empty_array(),
    {
        Json { text: "[]".to_owned() }
    }

    pub fn duplicate(&self) -> (j: Json)
        ensures
            j@ == self@,
    {
        Json { text: self.text.clone() }
    }
}

/// An account. `password` holds the digest of the password, never the
/// password itself.
#[derive(Clone, Debug, PartialEq, Eq)]
pub struct User {
    pub id: i32,
    pub email: String,
    pub nickname: String,
    pub password: String,
    pub created_at: Timestamp,
    pub updated_at: Timestamp,
}

pub struct UserView {
    pub id: int,
    pub email: Seq<char>,
    pub nickname: Seq<char>,
    pub password: Seq<char>,
    pub created_at: int,
    pub updated_at: int,
}

impl View for User {
    type V = UserView;

    open spec fn view(&self) -> UserView {
        UserView {
            id: self.id as int,
            email: self.email@,
            nickname: self.nickname@,
            password: self.password@,
            created_at: self.created_at as int,
            updated_at: self.updated_at as int,
        }
    }
}

impl Row for User {
    open spec fn key_of(v: UserView) -> int {
        v.id
    }

    open spec fn stamp_of(v: UserView) -> int {
        v.updated_at
    }

    open spec fn unique_columns() -> nat {
        2
    }

    open spec fn unique_value_of(v: UserView, k: int) -> Seq<char> {
        if k == 0 {
            v.email
        } else {
            v.nickname
        }
    }

    fn id(&self) -> (id: i32) {
        self.id
    }

    fn updated_at(&self) -> (t: i64) {
        self.updated_at
    }

    fn unique_column_count() -> (n: usize) {
        2
    }

    fn unique_value(&self, k: usize) -> (s: &String) {
        if k == 0 {
            &self.email
        } else {
            &self.nickname
        }
    }

    fn duplicate(&self) -> (r: Self) {
        User {
            id: self.id,
            email: self.email.clone(),
            nickname: self.nickname.clone(),
            password: self.password.clone(),
            created_at: self.created_at,
            updated_at: self.updated_at,
        }
    }
}

/// A named group of configs.
#[derive(Clone, Debug, PartialEq, Eq)]
pub struct Group {
    pub id: i32,
    pub name: String,
    pub created_at: Timestamp,
    pub updated_at: Timestamp,
}

pub struct GroupView {
    pub id: int,
    pub name: Seq<char>,
    pub created_at: int,
    pub updated_at: int,
}

impl View for Group {
    type V = GroupView;

    open spec fn view(&self) -> GroupView {
        GroupView {
            id: self.id as int,
            name: self.name@,
            created_at: self.created_at as int,
            updated_at: self.updated_at as int,
        }
    }
}

impl Row for Group {
    open spec fn key_of(v: GroupView) -> int {
        v.id
    }

    open spec fn stamp_of(v: GroupView) -> int {
        v.updated_at
    }

    open spec fn unique_columns() -> nat {
        1
    }

    open spec fn unique_value_of(v: GroupView, k: int) -> Seq<char> {
        v.name
    }

    fn id(&self) -> (id: i32) {
        self.id
    }

    fn updated_at(&self) -> (t: i64) {
        self.updated_at
    }

    fn unique_column_count() -> (n: usize) {
        1
    }

    fn unique_value(&self, k: usize) -> (s: &String) {
        &self.name
    }

    fn duplicate(&self) -> (r: Self) {
        Group {
            id: self.id,
            name: self.name.clone(),
            created_at: self.created_at,
            updated_at: self.updated_at,
        }
    }
}

/// A config entry: a named JSON document that belongs to one group.
#[derive(Clone, Debug, PartialEq, Eq)]
pub struct Config {
    pub id: i32,
    pub group_id: i32,
    pub name: String,
    pub values: Json,
    pub created_at: Timestamp,
    pub updated_at: Timestamp,
}

pub struct ConfigView {
    pub id: int,
    pub group_id: int,
    pub name: Seq<char>,
    pub values: Seq<char>,
    pub created_at: int,
    pub updated_at: int,
}

impl View for Config {
    type V = ConfigView;

    open spec fn view(&self) -> ConfigView {
        ConfigView {
            id: self.id as int,
            group_id: self.group_id as int,
            name: self.name@,
            values: self.values@,
            created_at: self.created_at as int,
            updated_at: self.updated_at as int,
        }
    }
}

impl Row for Config {
    open spec fn key_of(v: ConfigView) -> int {
        v.id
    }

    open spec fn stamp_of(v: ConfigView) -> int {
        v.updated_at
    }

    open spec fn unique_columns() -> nat {
        1
    }

    open spec fn unique_value_of(v: ConfigView, k: int) -> Seq<char> {
        v.name
    }

    fn id(&self) -> (id: i32) {
        self.id
    }

    fn updated_at(&self) -> (t: i64) {
        self.updated_at
    }

    fn unique_column_count() -> (n: usize) {
        1
    }

    fn unique_value(&self, k: usize) -> (s: &String) {
        &self.name
    }

    fn duplicate(&self) -> (r: Self) {
        Config {
            id: self.id,
            group_id: self.group_id,
            name: self.name.clone(),
            values: self.values.duplicate(),
            created_at: self.created_at,
            updated_at: self.updated_at,
        }
    }
}

/// A reusable project template.
#[derive(Clone, Debug, PartialEq, Eq)]
pub struct Template {
    pub id: i32,
    pub name: String,
    pub repo: String,
    pub brief: String,
    pub kind: String,
    /// The tags of the template; a template may also carry no list at all.
    pub tags: Option<Vec<String>>,
    pub created_at: Timestamp,
    pub updated_at: Timestamp,
}

pub struct TemplateView {
    pub id: int,
    pub name: Seq<char>,
    pub repo: Seq<char>,
    pub brief: Seq<char>,
    pub kind: Seq<char>,
    pub tags: Option<Seq<Seq<char>>>,
    pub created_at: int,
    pub updated_at: int,
}

impl View for Template {
    type V = TemplateView;

    open spec fn view(&self) -> TemplateView {
        TemplateView {
            id: self.id as int,
            name: self.name@,
            repo: self.repo@,
            brief: self.brief@,
            kind: self.kind@,
            tags: match self.tags {
                Some(list) => Some(texts(list@)),
                None => None,
            },
            created_at: self.created_at as int,
            updated_at: self.updated_at as int,
        }
    }
}

impl TemplateView {
    /// The tags that the template carries: those of its list, or none where
    /// it has no list.
    pub open spec fn tag_list(self) -> Seq<Seq<char>> {
        match self.tags {
            Some(list) => list,
            None => Seq::empty(),
        }
    }
}

impl Row for Template {
    open spec fn key_of(v: TemplateView) -> int {
        v.id
    }

    open spec fn stamp_of(v: TemplateView) -> int {
        v.updated_at
    }

    open spec fn unique_columns() -> nat {
        2
    }

    open spec fn unique_value_of(v: TemplateView, k: int) -> Seq<char> {
        if k == 0 {
            v.name
        } else {
            v.repo
        }
    }

    fn id(&self) -> (id: i32) {
        self.id
    }

    fn updated_at(&self) -> (t: i64) {
        self.updated_at
    }

    fn unique_column_count() -> (n: usize) {
        2
    }

    fn unique_value(&self, k: usize) -> (s: &String) {
        if k == 0 {
            &self.name
        } else {
            &self.repo
        }
    }

    fn duplicate(&self) -> (r: Self) {
        Template {
            id: self.id,
            name: self.name.clone(),
            repo: self.repo.clone(),
            brief: self.brief.clone(),
            kind: self.kind.clone(),
            tags: match &self.tags {
                Some(list) => Some(copy_strings(list)),
                None => None,
            },
            created_at: self.created_at,
            updated_at: self.updated_at,
        }
    }
}

/// A project, owned by one user.
#[derive(Clone, Debug, PartialEq, Eq)]
pub struct Project {
    pub id: i32,
    pub name: String,
    pub repo: String,
    pub repo_id: i32,
    pub description: String,
    pub user_id: i32,
    pub created_at: Timestamp,
    pub updated_at: Timestamp,
}

pub struct ProjectView {
    pub id: int,
    pub name: Seq<char>,
    pub repo: Seq<char>,
    pub repo_id: int,
    pub description: Seq<char>,
    pub user_id: int,
    pub created_at: int,
    pub updated_at: int,
}

impl View for Project {
    type V = ProjectView;

    open spec fn view(&self) -> ProjectView {
        ProjectView {
            id: self.id as int,
            name: self.name@,
            repo: self.repo@,
            repo_id: self.repo_id as int,
            description: self.description@,
            user_id: self.user_id as int,
            created_at: self.created_at as int,
            updated_at: self.updated_at as int,
        }
    }
}

impl Row for Project {
    open spec fn key_of(v: ProjectView) -> int {
        v.id
    }

    open spec fn stamp_of(v: ProjectView) -> int {
        v.updated_at
    }

    open spec fn unique_columns() -> nat {
        0
    }

    open spec fn unique_value_of(v: ProjectView, k: int) -> Seq<char> {
        v.name
    }

    fn id(&self) -> (id: i32) {
        self.id
    }

    fn updated_at(&self) -> (t: i64) {
        self.updated_at
    }

    fn unique_column_count() -> (n: usize) {
        0
    }

    fn unique_value(&self, k: usize) -> (s: &String) {
        &self.name
    }

    fn duplicate(&self) -> (r: Self) {
        Project {
            id: self.id,
            name: self.name.clone(),
            repo: self.repo.clone(),
            repo_id: self.repo_id,
            description: self.description.clone(),
            user_id: self.user_id,
            created_at: self.created_at,
            updated_at: self.updated_at,
        }
    }
}

} // verus!
