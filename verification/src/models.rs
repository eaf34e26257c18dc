use vstd::prelude::*;
use crate::entity::{
    Config, ConfigView, Group, GroupView, Json, Project, ProjectView, Template, TemplateView,
    Timestamp,
};
use crate::table::RowFilter;
use crate::text::{contains_text, has_string, str_contains, texts};

verus! {

/// A page request: 1-indexed page number and page size.
#[derive(Clone, Debug, PartialEq, Eq)]
pub struct Pagination {
    pub page: u64,
    pub page_size: u64,
}

/// The page number used when a request names none.
pub fn default_page() -> (page: u64)
    ensures
        page == 1,
{
    1
}

/// The page size used when a request names none.
pub fn default_page_size() -> (size: u64)
    ensures
        size == 10,
{
    10
}

impl Pagination {
    /// Whether the request can be served: pages are counted from 1 and hold
    /// at least one row.
    pub open spec fn valid(&self) -> bool {
        self.page >= 1 && self.page_size >= 1
    }

    pub fn is_valid(&self) -> (b: bool)
        ensures
            b == self.valid(),
    {
        self.page >= 1 && self.page_size >= 1
    }
}

impl Default for Pagination {
    fn default() -> (p: Pagination)
        ensures
            p.page == 1,
            p.page_size == 10,
    {
        Pagination { page: default_page(), page_size: default_page_size() }
    }
}

/// Whether an optional substring criterion admits `text`.
pub open spec fn admits_text(criterion: Option<String>, text: Seq<char>) -> bool {
    match criterion {
        Some(part) => contains_text(text, part@),
        None => true,
    }
}

fn text_admitted(criterion: &Option<String>, text: &String) -> (b: bool)
    ensures
        b == admits_text(*criterion, text@),
{
    match criterion {
        Some(part) => str_contains(text.as_str(), part.as_str()),
        None => true,
    }
}

/// Criteria for listing groups. Absent criteria admit every row.
#[derive(Clone, Debug, PartialEq, Eq)]
pub struct GroupFilter {
    /// The group's name contains this text.
    pub name: Option<String>,
}

impl Default for GroupFilter {
    fn default() -> (f: GroupFilter)
        ensures
            f.name is None,
    {
        GroupFilter { name: None }
    }
}

impl RowFilter<Group> for GroupFilter {
    open spec fn matches(&self, row: GroupView) -> bool {
        admits_text(self.name, row.name)
    }

    fn accepts(&self, row: &Group) -> (b: bool) {
        text_admitted(&self.name, &row.name)
    }
}

/// Criteria for listing configs. Absent criteria admit every row.
#[derive(Clone, Debug, PartialEq, Eq)]
pub struct ConfigFilter {
    /// The config belongs to this group.
    pub group_id: Option<i32>,
    /// The config's name contains this text.
    pub name: Option<String>,
}

impl Default for ConfigFilter {
    fn default() -> (f: ConfigFilter)
        ensures
            f.group_id is None,
            f.name is None,
    {
        ConfigFilter { group_id: None, name: None }
    }
}

impl RowFilter<Config> for ConfigFilter {
    open spec fn matches(&self, row: ConfigView) -> bool {
        &&& self.group_id matches Some(g) ==> row.group_id == g
        &&& admits_text(self.name, row.name)
    }

    fn accepts(&self, row: &Config) -> (b: bool) {
        let in_group = match self.group_id {
            Some(g) => row.group_id == g,
            None => true,
        };
        in_group && text_admitted(&self.name, &row.name)
    }
}

/// Criteria for listing templates. Absent criteria admit every row.
#[derive(Clone, Debug, PartialEq, Eq)]
pub struct TemplateFilter {
    /// The template's name contains this text.
    pub name: Option<String>,
    /// The template's kind contains this text.
    pub kind: Option<String>,
    /// The template carries this tag.
    pub tag: Option<String>,
}

impl RowFilter<Template> for TemplateFilter {
    open spec fn matches(&self, row: TemplateView) -> bool {
        &&& admits_text(self.name, row.name)
        &&& admits_text(self.kind, row.kind)
        &&& self.tag matches Some(t) ==> row.tag_list().contains(t@)
    }

    fn accepts(&self, row: &Template) -> (b: bool) {
        let tagged = match &self.tag {
            Some(t) => match &row.tags {
                Some(list) => has_string(list, t),
                None => false,
            },
            None => true,
        };
        tagged && text_admitted(&self.name, &row.name) && text_admitted(&self.kind, &row.kind)
    }
}

/// Criteria for listing projects. Absent criteria admit every row.
#[derive(Clone, Debug, PartialEq, Eq)]
pub struct ProjectFilter {
    /// The project's name contains this text.
    pub name: Option<String>,
    /// The project's description contains this text.
    pub description: Option<String>,
}

impl RowFilter<Project> for ProjectFilter {
    open spec fn matches(&self, row: ProjectView) -> bool {
        &&& admits_text(self.name, row.name)
        &&& admits_text(self.description, row.description)
    }

    fn accepts(&self, row: &Project) -> (b: bool) {
        text_admitted(&self.name, &row.name) && text_admitted(
            &self.description,
            &row.description,
        )
    }
}

/// The stamp of a row that is written at time `now` over a row stamped
/// `old`: the time of the write, but later than the stamp before wherever a
/// later stamp exists.
pub open spec fn later(now: int, old: int) -> int {
    if now > old {
        now
    } else if old < i64::MAX {
        old + 1
    } else {
        old
    }
}

/// The stamp of a row that is written at time `now` over a row stamped `old`.
pub fn stamp_after(now: Timestamp, old: Timestamp) -> (stamp: Timestamp)
    ensures
        stamp == later(now as int, old as int),
        old < i64::MAX ==> stamp > old,
{
    if now > old {
        now
    } else if old < i64::MAX {
        old + 1
    } else {
        old
    }
}

/// What a new group is made from.
#[derive(Clone, Debug, PartialEq, Eq)]
pub struct NewGroup {
    pub name: String,
}

/// What an update of a group writes.
#[derive(Clone, Debug, PartialEq, Eq)]
pub struct UpdateGroup {
    pub name: String,
}

impl UpdateGroup {
    /// The group after the update at time `now`.
    pub open spec fn applied(&self, row: GroupView, now: int) -> GroupView {
        GroupView { name: self.name@, updated_at: later(now, row.updated_at), ..row }
    }

    /// Writes the update into `row` and stamps it with `now`, or with the
    /// next instant after the row's stamp where `now` is not later than that.
    pub fn apply(self, row: Group, now: Timestamp) -> (r: Group)
        ensures
            r@ == self.applied(row@, now as int),
    {
        Group {
            id: row.id,
            name: self.name,
            created_at: row.created_at,
            updated_at: stamp_after(now, row.updated_at),
        }
    }
}

/// What a new config is made from. Without `values` the config holds the
/// empty JSON array.
#[derive(Clone, Debug, PartialEq, Eq)]
pub struct NewConfig {
    pub group_id: i32,
    pub name: String,
    pub values: Option<Json>,
}

/// A partial update of a config: only the fields that are present are
/// written.
#[derive(Clone, Debug, PartialEq, Eq)]
pub struct UpdateConfig {
    pub group_id: Option<i32>,
    pub name: Option<String>,
    pub values: Option<Json>,
}

impl Default for UpdateConfig {
    fn default() -> (u: UpdateConfig)
        ensures
            u.group_id is None,
            u.name is None,
            u.values is None,
    {
        UpdateConfig { group_id: None, name: None, values: None }
    }
}

impl UpdateConfig {
    /// The config after the update at time `now`.
    pub open spec fn applied(&self, row: ConfigView, now: int) -> ConfigView {
        ConfigView {
            group_id: match self.group_id {
                Some(g) => g as int,
                None => row.group_id,
            },
            name: match self.name {
                Some(n) => n@,
                None => row.name,
            },
            values: match self.values {
                Some(v) => v@,
                None => row.values,
            },
            updated_at: later(now, row.updated_at),
            ..row
        }
    }

    /// Writes the fields that are present into `row` and stamps it with
    /// `now`, or with the next instant after the row's stamp where `now` is
    /// not later than that.
    pub fn apply(self, row: Config, now: Timestamp) -> (r: Config)
        ensures
            r@ == self.applied(row@, now as int),
    {
        Config {
            id: row.id,
            group_id: match self.group_id {
                Some(g) => g,
                None => row.group_id,
            },
            name: match self.name {
                Some(n) => n,
                None => row.name,
            },
            values: match self.values {
                Some(v) => v,
                None => row.values,
            },
            created_at: row.created_at,
            updated_at: stamp_after(now, row.updated_at),
        }
    }
}

/// What a new account is made from. `password` is the password as typed.
#[derive(Clone, Debug, PartialEq, Eq)]
pub struct NewUser {
    pub email: String,
    pub password: String,
    pub nickname: String,
}

/// What a new template is made from. It starts with an empty kind and no
/// tags.
#[derive(Clone, Debug, PartialEq, Eq)]
pub struct NewTemplate {
    pub name: String,
    pub brief: String,
    pub repo: String,
}

/// A partial update of a template: only the fields that are present are
/// written.
#[derive(Clone, Debug, PartialEq, Eq)]
pub struct UpdateTemplate {
    pub name: Option<String>,
    pub brief: Option<String>,
    pub kind: Option<String>,
    pub tags: Option<Vec<String>>,
    pub repo: Option<String>,
}

impl UpdateTemplate {
    /// The template after the update at time `now`.
    pub open spec fn applied(&self, row: TemplateView, now: int) -> TemplateView {
        TemplateView {
            name: match self.name {
                Some(n) => n@,
                None => row.name,
            },
            brief: match self.brief {
                Some(b) => b@,
                None => row.brief,
            },
            kind: match self.kind {
                Some(k) => k@,
                None => row.kind,
            },
            tags: match self.tags {
                Some(t) => Some(texts(t@)),
                None => row.tags,
            },
            repo: match self.repo {
                Some(r) => r@,
                None => row.repo,
            },
            updated_at: later(now, row.updated_at),
            ..row
        }
    }

    /// Writes the fields that are present into `row` and stamps it with
    /// `now`, or with the next instant after the row's stamp where `now` is
    /// not later than that.
    pub fn apply(self, row: Template, now: Timestamp) -> (r: Template)
        ensures
            r@ == self.applied(row@, now as int),
    {
        Template {
            id: row.id,
            name: match self.name {
                Some(n) => n,
                None => row.name,
            },
            repo: match self.repo {
                Some(r) => r,
                None => row.repo,
            },
            brief: match self.brief {
                Some(b) => b,
                None => row.brief,
            },
            kind: match self.kind {
                Some(k) => k,
                None => row.kind,
            },
            tags: match self.tags {
                Some(t) => Some(t),
                None => row.tags,
            },
            created_at: row.created_at,
            updated_at: stamp_after(now, row.updated_at),
        }
    }
}

/// What a new project is made from; its owner is given separately.
#[derive(Clone, Debug, PartialEq, Eq)]
pub struct NewProject {
    pub name: String,
    pub repo: String,
    pub repo_id: i32,
    pub description: String,
}

/// A partial update of a project: only the fields that are present are
/// written.
#[derive(Clone, Debug, PartialEq, Eq)]
pub struct UpdateProject {
    pub name: Option<String>,
    pub description: Option<String>,
}

impl UpdateProject {
    /// The project after the update at time `now`.
    pub open spec fn applied(&self, row: ProjectView, now: int) -> ProjectView {
        ProjectView {
            name: match self.name {
                Some(n) => n@,
                None => row.name,
            },
            description: match self.description {
                Some(d) => d@,
                None => row.description,
            },
            updated_at: later(now, row.updated_at),
            ..row
        }
    }

    /// Writes the fields that are present into `row` and stamps it with
    /// `now`, or with the next instant after the row's stamp where `now` is
    /// not later than that.
    pub fn apply(self, row: Project, now: Timestamp) -> (r: Project)
        ensures
            r@ == self.applied(row@, now as int),
    {
        Project {
            id: row.id,
            name: match self.name {
                Some(n) => n,
                None => row.name,
            },
            repo: row.repo,
            repo_id: row.repo_id,
            description: match self.description {
                Some(d) => d,
                None => row.description,
            },
            user_id: row.user_id,
            created_at: row.created_at,
            updated_at: stamp_after(now, row.updated_at),
        }
    }
}

} // verus!
