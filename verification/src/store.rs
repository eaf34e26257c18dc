use vstd::prelude::*;
use vstd::string::*;
use crate::entity::{
    Config, ConfigView, Group, GroupView, Project, ProjectView, Template, TemplateView, User,
    UserView,
};
use crate::table::{table_wf, Table, TableView};

verus! {

/// Why the store refused or failed an operation.
#[derive(Clone, Debug, PartialEq, Eq)]
pub enum DbErr {
    /// A value that must be unique is already taken by another row.
    UniqueViolation,
    /// The row refers to a row that does not exist.
    ForeignKeyViolation,
    /// The key sequence of the table has no key left.
    KeysExhausted,
    /// The row to write does not exist.
    RecordNotFound,
    /// The row carries the last stamp there is, so no write can be later.
    StampExhausted,
    /// A failure described by its message.
    Custom(String),
}

pub enum DbErrView {
    UniqueViolation,
    ForeignKeyViolation,
    KeysExhausted,
    RecordNotFound,
    StampExhausted,
    Custom(Seq<char>),
}

impl View for DbErr {
    type V = DbErrView;

    open spec fn view(&self) -> DbErrView {
        match self {
            DbErr::UniqueViolation => DbErrView::UniqueViolation,
            DbErr::ForeignKeyViolation => DbErrView::ForeignKeyViolation,
            DbErr::KeysExhausted => DbErrView::KeysExhausted,
            DbErr::RecordNotFound => DbErrView::RecordNotFound,
            DbErr::StampExhausted => DbErrView::StampExhausted,
            DbErr::Custom(s) => DbErrView::Custom(s@),
        }
    }
}

impl DbErrView {
    /// The text that describes the error to a client.
    pub open spec fn message(self) -> Seq<char> {
        match self {
            DbErrView::UniqueViolation => "Execution Error: unique constraint violated"@,
            DbErrView::ForeignKeyViolation => "Execution Error: foreign key constraint violated"@,
            DbErrView::KeysExhausted => "Execution Error: key sequence exhausted"@,
            DbErrView::RecordNotFound =>
                "RecordNotFound Error: None of the database rows are affected"@,
            DbErrView::StampExhausted => "Execution Error: timestamp out of range"@,
            DbErrView::Custom(s) => "Custom Error: "@ + s,
        }
    }
}

impl DbErr {
    /// A `Custom` error with the given message.
    pub fn custom(message: &str) -> (e: DbErr)
        ensures
            e@ == DbErrView::Custom(message@),
    {
        DbErr::Custom(message.to_owned())
    }

    /// The text that describes the error to a client.
    pub fn to_string(&self) -> (s: String)
        ensures
            s@ == self@.message(),
    {
        match self {
            DbErr::UniqueViolation => "Execution Error: unique constraint violated".to_owned(),
            DbErr::ForeignKeyViolation =>
                "Execution Error: foreign key constraint violated".to_owned(),
            DbErr::KeysExhausted => "Execution Error: key sequence exhausted".to_owned(),
            DbErr::RecordNotFound =>
                "RecordNotFound Error: None of the database rows are affected".to_owned(),
            DbErr::StampExhausted => "Execution Error: timestamp out of range".to_owned(),
            DbErr::Custom(s) => "Custom Error: ".to_owned().concat(s.as_str()),
        }
    }
}

/// The outcome of a delete: how many rows it removed.
#[derive(Clone, Copy, Debug, PartialEq, Eq)]
pub struct DeleteResult {
    pub rows_affected: u64,
}

/// The relational store: one table per entity.
pub struct Database {
    pub users: Table<User>,
    pub groups: Table<Group>,
    pub configs: Table<Config>,
    pub templates: Table<Template>,
    pub projects: Table<Project>,
}

pub struct DatabaseView {
    pub users: TableView<UserView>,
    pub groups: TableView<GroupView>,
    pub configs: TableView<ConfigView>,
    pub templates: TableView<TemplateView>,
    pub projects: TableView<ProjectView>,
}

impl View for Database {
    type V = DatabaseView;

    open spec fn view(&self) -> DatabaseView {
        DatabaseView {
            users: self.users@,
            groups: self.groups@,
            configs: self.configs@,
            templates: self.templates@,
            projects: self.projects@,
        }
    }
}

impl DatabaseView {
    /// The invariant of the store: every table is well formed.
    pub open spec fn wf(self) -> bool {
        &&& table_wf::<User>(self.users)
        &&& table_wf::<Group>(self.groups)
        &&& table_wf::<Config>(self.configs)
        &&& table_wf::<Template>(self.templates)
        &&& table_wf::<Project>(self.projects)
    }
}

impl Database {
    /// Whether the store's invariant holds.
    pub open spec fn wf(&self) -> bool {
        self@.wf()
    }

    /// A store without rows.
    pub fn new() -> (db: Database)
        ensures
            db.wf(),
            db@.users.rows.len() == 0 && db@.users.last_id == 0,
            db@.groups.rows.len() == 0 && db@.groups.last_id == 0,
            db@.configs.rows.len() == 0 && db@.configs.last_id == 0,
            db@.templates.rows.len() == 0 && db@.templates.last_id == 0,
            db@.projects.rows.len() == 0 && db@.projects.last_id == 0,
    {
        Database {
            users: Table::new(),
            groups: Table::new(),
            configs: Table::new(),
            templates: Table::new(),
            projects: Table::new(),
        }
    }
}

} // verus!
