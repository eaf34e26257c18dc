use vstd::prelude::*;
use crate::clock::local_now_micros;
use crate::entity::{
    Config, ConfigView, Group, GroupView, Json, Project, ProjectView, Template, TemplateView,
    Timestamp, User, UserView,
};
use crate::models::{
    NewConfig, NewGroup, NewProject, NewTemplate, UpdateConfig, UpdateGroup, UpdateProject,
    UpdateTemplate,
};
use crate::query::{owner_of, project_vo};
use crate::store::{Database, DatabaseView, DbErr, DbErrView, DeleteResult};
use crate::table::{
    collides, has_key, lookup, position, select, Row, RowFilter, Table, TableView,
};
use crate::vo::{ProjectVo, ProjectVoView};

verus! {

/// What an operation does to the store and what it answers.
pub struct Outcome<V> {
    pub db: DatabaseView,
    pub result: Result<V, DbErrView>,
}

/// Whether the store `after` an operation and its answer `r` are what
/// `outcome` says.
pub open spec fn agrees<T: View>(outcome: Outcome<T::V>, after: DatabaseView, r: Result<T, DbErr>)
    -> bool {
    &&& after == outcome.db
    &&& match outcome.result {
        Ok(v) => r matches Ok(x) && x@ == v,
        Err(e) => r matches Err(x) && x@ == e,
    }
}

/// Whether the store `after` a delete and its answer `r` are what `outcome`
/// says.
pub open spec fn agrees_on_delete(
    outcome: Outcome<int>,
    after: DatabaseView,
    r: Result<DeleteResult, DbErr>,
) -> bool {
    &&& after == outcome.db
    &&& match outcome.result {
        Ok(n) => r matches Ok(x) && x.rows_affected == n,
        Err(e) => r matches Err(x) && x@ == e,
    }
}

/// A table after `row` was appended, or the reason why it cannot be.
pub open spec fn appended<R: Row>(t: TableView<R::V>, row: R::V) -> Result<
    TableView<R::V>,
    DbErrView,
> {
    if t.last_id >= i32::MAX {
        Err(DbErrView::KeysExhausted)
    } else if collides::<R>(t.rows, row, -1) {
        Err(DbErrView::UniqueViolation)
    } else {
        Ok(TableView { rows: t.rows.push(row), last_id: t.last_id + 1 })
    }
}

/// A table after the row at index `i` was replaced by `row`, or the reason
/// why it cannot be.
pub open spec fn rewritten<R: Row>(t: TableView<R::V>, i: int, row: R::V) -> Result<
    TableView<R::V>,
    DbErrView,
> {
    if collides::<R>(t.rows, row, i) {
        Err(DbErrView::UniqueViolation)
    } else {
        Ok(TableView { rows: t.rows.update(i, row), last_id: t.last_id })
    }
}

/// A table without the row with key `id`, and how many rows that removes.
pub open spec fn without<R: Row>(t: TableView<R::V>, id: int) -> (TableView<R::V>, int) {
    match position::<R>(t.rows, id) {
        Some(i) => (TableView { rows: t.rows.remove(i), last_id: t.last_id }, 1),
        None => (t, 0),
    }
}

/// Whether a row stamped `stamp` can still be written: a later stamp must
/// exist.
pub open spec fn can_restamp(stamp: int) -> bool {
    stamp < i64::MAX
}

/// The criterion "does not belong to group `group_id`" on configs.
#[derive(Clone, Debug, PartialEq, Eq)]
pub struct OutsideGroup {
    pub group_id: i32,
}

impl RowFilter<Config> for OutsideGroup {
    open spec fn matches(&self, row: ConfigView) -> bool {
        row.group_id != self.group_id
    }

    fn accepts(&self, row: &Config) -> (b: bool) {
        row.group_id != self.group_id
    }
}

/// The criterion "is not named `name`" on projects.
#[derive(Clone, Debug, PartialEq, Eq)]
pub struct NotNamed {
    pub name: String,
}

impl RowFilter<Project> for NotNamed {
    open spec fn matches(&self, row: ProjectView) -> bool {
        row.name != self.name@
    }

    fn accepts(&self, row: &Project) -> (b: bool) {
        row.name != self.name
    }
}

impl DatabaseView {
    /// The group that `create_group` writes.
    pub open spec fn new_group(self, payload: NewGroup, now: int) -> GroupView {
        GroupView {
            id: self.groups.last_id + 1,
            name: payload.name@,
            created_at: now,
            updated_at: now,
        }
    }

    pub open spec fn create_group(self, payload: NewGroup, now: int) -> Outcome<GroupView> {
        let row = self.new_group(payload, now);
        match appended::<Group>(self.groups, row) {
            Ok(groups) => Outcome { db: DatabaseView { groups, ..self }, result: Ok(row) },
            Err(e) => Outcome { db: self, result: Err(e) },
        }
    }

    pub open spec fn update_group(self, id: int, payload: UpdateGroup, now: int) -> Outcome<
        GroupView,
    > {
        match position::<Group>(self.groups.rows, id) {
            None => Outcome {
                db: self,
                result: Err(DbErrView::Custom("Cannot find group."@)),
            },
            Some(i) => {
                let row = payload.applied(self.groups.rows[i], now);
                if !can_restamp(self.groups.rows[i].updated_at) {
                    Outcome { db: self, result: Err(DbErrView::StampExhausted) }
                } else {
                    match rewritten::<Group>(self.groups, i, row) {
                        Ok(groups) => Outcome {
                            db: DatabaseView { groups, ..self },
                            result: Ok(row),
                        },
                        Err(e) => Outcome { db: self, result: Err(e) },
                    }
                }
            },
        }
    }

    /// Deleting a group also deletes the configs that belong to it; the
    /// answer counts the group alone.
    pub open spec fn delete_group(self, id: int) -> Outcome<int> {
        match position::<Group>(self.groups.rows, id) {
            None => Outcome { db: self, result: Ok(0) },
            Some(i) => Outcome {
                db: DatabaseView {
                    groups: TableView {
                        rows: self.groups.rows.remove(i),
                        last_id: self.groups.last_id,
                    },
                    configs: TableView {
                        rows: select::<Config, OutsideGroup>(
                            self.configs.rows,
                            OutsideGroup { group_id: id as i32 },
                        ),
                        last_id: self.configs.last_id,
                    },
                    ..self
                },
                result: Ok(1),
            },
        }
    }

    /// The config that `create_config` writes.
    pub open spec fn new_config(self, form: NewConfig, now: int) -> ConfigView {
        ConfigView {
            id: self.configs.last_id + 1,
            group_id: form.group_id as int,
            name: form.name@,
            values: match form.values {
                Some(v) => v@,
                None => Json::empty_array(),
            },
            created_at: now,
            updated_at: now,
        }
    }

    pub open spec fn create_config(self, form: NewConfig, now: int) -> Outcome<ConfigView> {
        let row = self.new_config(form, now);
        match appended::<Config>(self.configs, row) {
            Err(e) => Outcome { db: self, result: Err(e) },
            Ok(configs) => if !has_key::<Group>(self.groups.rows, row.group_id) {
                Outcome { db: self, result: Err(DbErrView::ForeignKeyViolation) }
            } else {
                Outcome { db: DatabaseView { configs, ..self }, result: Ok(row) }
            },
        }
    }

    pub open spec fn update_config(self, id: int, payload: UpdateConfig, now: int) -> Outcome<
        ConfigView,
    > {
        match position::<Config>(self.configs.rows, id) {
            None => Outcome { db: self, result: Err(DbErrView::RecordNotFound) },
            Some(i) => {
                let row = payload.applied(self.configs.rows[i], now);
                if !can_restamp(self.configs.rows[i].updated_at) {
                    Outcome { db: self, result: Err(DbErrView::StampExhausted) }
                } else {
                    match rewritten::<Config>(self.configs, i, row) {
                        Err(e) => Outcome { db: self, result: Err(e) },
                        Ok(configs) => if !has_key::<Group>(self.groups.rows, row.group_id) {
                            Outcome { db: self, result: Err(DbErrView::ForeignKeyViolation) }
                        } else {
                            Outcome { db: DatabaseView { configs, ..self }, result: Ok(row) }
                        },
                    }
                }
            },
        }
    }

    pub open spec fn delete_config(self, id: int) -> Outcome<int> {
        let (configs, n) = without::<Config>(self.configs, id);
        Outcome { db: DatabaseView { configs, ..self }, result: Ok(n) }
    }

    /// The account that `create_user` writes.
    pub open spec fn new_user(
        self,
        email: Seq<char>,
        password: Seq<char>,
        nickname: Seq<char>,
        now: int,
    ) -> UserView {
        UserView {
            id: self.users.last_id + 1,
            email,
            nickname,
            password,
            created_at: now,
            updated_at: now,
        }
    }

    pub open spec fn create_user(
        self,
        email: Seq<char>,
        password: Seq<char>,
        nickname: Seq<char>,
        now: int,
    ) -> Outcome<UserView> {
        let row = self.new_user(email, password, nickname, now);
        match appended::<User>(self.users, row) {
            Ok(users) => Outcome { db: DatabaseView { users, ..self }, result: Ok(row) },
            Err(e) => Outcome { db: self, result: Err(e) },
        }
    }

    /// The template that `create_template` writes.
    pub open spec fn new_template(self, payload: NewTemplate, now: int) -> TemplateView {
        TemplateView {
            id: self.templates.last_id + 1,
            name: payload.name@,
            repo: payload.repo@,
            brief: payload.brief@,
            kind: Seq::empty(),
            tags: Some(Seq::empty()),
            created_at: now,
            updated_at: now,
        }
    }

    pub open spec fn create_template(self, payload: NewTemplate, now: int) -> Outcome<
        TemplateView,
    > {
        let row = self.new_template(payload, now);
        match appended::<Template>(self.templates, row) {
            Ok(templates) => Outcome { db: DatabaseView { templates, ..self }, result: Ok(row) },
            Err(e) => Outcome { db: self, result: Err(e) },
        }
    }

    pub open spec fn update_template(self, id: int, payload: UpdateTemplate, now: int) -> Outcome<
        TemplateView,
    > {
        match position::<Template>(self.templates.rows, id) {
            None => Outcome { db: self, result: Err(DbErrView::RecordNotFound) },
            Some(i) => {
                let row = payload.applied(self.templates.rows[i], now);
                if !can_restamp(self.templates.rows[i].updated_at) {
                    Outcome { db: self, result: Err(DbErrView::StampExhausted) }
                } else {
                    match rewritten::<Template>(self.templates, i, row) {
                        Ok(templates) => Outcome {
                            db: DatabaseView { templates, ..self },
                            result: Ok(row),
                        },
                        Err(e) => Outcome { db: self, result: Err(e) },
                    }
                }
            },
        }
    }

    pub open spec fn delete_template(self, id: int) -> Outcome<int> {
        let (templates, n) = without::<Template>(self.templates, id);
        Outcome { db: DatabaseView { templates, ..self }, result: Ok(n) }
    }

    /// The project that `create_project` writes.
    pub open spec fn new_project(self, payload: NewProject, user_id: int, now: int) -> ProjectView {
        ProjectView {
            id: self.projects.last_id + 1,
            name: payload.name@,
            repo: payload.repo@,
            repo_id: payload.repo_id as int,
            description: payload.description@,
            user_id,
            created_at: now,
            updated_at: now,
        }
    }

    /// A project is written only where its owner exists: a project of a
    /// missing user is refused with an error of its own.
    pub open spec fn create_project(self, payload: NewProject, user_id: int, now: int) -> Outcome<
        ProjectVoView,
    > {
        let row = self.new_project(payload, user_id, now);
        match appended::<Project>(self.projects, row) {
            Err(e) => Outcome { db: self, result: Err(e) },
            Ok(projects) => if owner_of(self, row) is None {
                Outcome { db: self, result: Err(DbErrView::Custom("Failed to find user"@)) }
            } else {
                Outcome { db: DatabaseView { projects, ..self }, result: Ok(project_vo(self, row)) }
            },
        }
    }

    /// A project is rewritten only where its owner exists: where the store
    /// holds a project of a missing user, the update is refused with an error
    /// of its own.
    pub open spec fn update_project(self, id: int, payload: UpdateProject, now: int) -> Outcome<
        ProjectVoView,
    > {
        match position::<Project>(self.projects.rows, id) {
            None => Outcome { db: self, result: Err(DbErrView::RecordNotFound) },
            Some(i) => {
                let row = payload.applied(self.projects.rows[i], now);
                if !can_restamp(self.projects.rows[i].updated_at) {
                    Outcome { db: self, result: Err(DbErrView::StampExhausted) }
                } else if owner_of(self, row) is None {
                    Outcome { db: self, result: Err(DbErrView::Custom("Failed to find user"@)) }
                } else {
                    match rewritten::<Project>(self.projects, i, row) {
                        Ok(projects) => Outcome {
                            db: DatabaseView { projects, ..self },
                            result: Ok(project_vo(self, row)),
                        },
                        Err(e) => Outcome { db: self, result: Err(e) },
                    }
                }
            },
        }
    }

    pub open spec fn delete_project(self, id: int) -> Outcome<int> {
        let (projects, n) = without::<Project>(self.projects, id);
        Outcome { db: DatabaseView { projects, ..self }, result: Ok(n) }
    }

    /// Deleting by name removes every project with that name.
    pub open spec fn delete_project_named(self, name: String) -> Outcome<int> {
        let rows = select::<Project, NotNamed>(self.projects.rows, NotNamed { name });
        Outcome {
            db: DatabaseView {
                projects: TableView { rows, last_id: self.projects.last_id },
                ..self
            },
            result: Ok(self.projects.rows.len() - rows.len()),
        }
    }
}

/// Appends `row` to `table` and answers with a copy of it.
fn append<R: Row>(table: &mut Table<R>, row: R) -> (r: Result<R, DbErr>)
    requires
        old(table).wf(),
        R::key_of(row@) == old(table)@.last_id + 1,
        old(table)@.last_id < i32::MAX,
    ensures
        final(table).wf(),
        match appended::<R>(old(table)@, row@) {
            Ok(t) => final(table)@ == t && (r matches Ok(x) && x@ == row@),
            Err(e) => final(table)@ == old(table)@ && (r matches Err(x) && x@ == e),
        },
{
    let copy = row.duplicate();
    match table.insert(row) {
        Ok(()) => Ok(copy),
        Err(_) => Err(DbErr::UniqueViolation),
    }
}

/// Puts `row` in place of the row at index `i` and answers with a copy of it.
fn rewrite<R: Row>(table: &mut Table<R>, i: usize, row: R) -> (r: Result<R, DbErr>)
    requires
        old(table).wf(),
        i < old(table)@.rows.len(),
        R::key_of(row@) == R::key_of(old(table)@.rows[i as int]),
    ensures
        final(table).wf(),
        match rewritten::<R>(old(table)@, i as int, row@) {
            Ok(t) => final(table)@ == t && (r matches Ok(x) && x@ == row@),
            Err(e) => final(table)@ == old(table)@ && (r matches Err(x) && x@ == e),
        },
{
    let copy = row.duplicate();
    match table.replace(i, row) {
        Ok(()) => Ok(copy),
        Err(_) => Err(DbErr::UniqueViolation),
    }
}

/// Removes the row with key `id` from `table`.
fn discard<R: Row>(table: &mut Table<R>, id: i32) -> (r: DeleteResult)
    requires
        old(table).wf(),
    ensures
        final(table).wf(),
        final(table)@ == without::<R>(old(table)@, id as int).0,
        r.rows_affected == without::<R>(old(table)@, id as int).1,
{
    let n = table.remove(id);
    DeleteResult { rows_affected: n }
}

/// The write operations of the store.
///
/// Each operation that stamps a row comes in two forms: one that takes the
/// time as an argument, and one that reads the clock and then does the same.
/// An update stamps the row with that time, or with the next instant after
/// the stamp that the row had where the time is not later than that, so that
/// the stamp of a row grows with every update. A write that is refused
/// changes nothing.
pub struct Mutation;

impl Mutation {
    /// Creates a group at time `now`.
    pub fn create_group_at(db: &mut Database, payload: NewGroup, now: Timestamp) -> (r: Result<
        Group,
        DbErr,
    >)
        requires
            old(db).wf(),
        ensures
            final(db).wf(),
            agrees(old(db)@.create_group(payload, now as int), final(db)@, r),
    {
        let id = match db.groups.next_id() {
            Some(id) => id,
            None => {
                return Err(DbErr::KeysExhausted);
            },
        };
        let row = Group { id, name: payload.name, created_at: now, updated_at: now };
        append(&mut db.groups, row)
    }

    /// Creates a group, stamped with the time of the clock.
    pub fn create_group(db: &mut Database, payload: NewGroup) -> (r: Result<Group, DbErr>)
        requires
            old(db).wf(),
        ensures
            final(db).wf(),
            exists|now: int| #[trigger]
                agrees(old(db)@.create_group(payload, now), final(db)@, r),
    {
        let now = local_now_micros();
        Self::create_group_at(db, payload, now)
    }
    /// Renames the group with key `id` at time `now`. A group that does not
    /// exist is an error of its own.
    pub fn update_group_by_id_at(
        db: &mut Database,
        id: i32,
        payload: UpdateGroup,
        now: Timestamp,
    ) -> (r: Result<Group, DbErr>)
        requires
            old(db).wf(),
        ensures
            final(db).wf(),
            agrees(old(db)@.update_group(id as int, payload, now as int), final(db)@, r),
    {
        match db.groups.index_of(id) {
            None => Err(DbErr::custom("Cannot find group.")),
            Some(i) => {
                let before = db.groups.row(i).duplicate();
                if before.updated_at == i64::MAX {
                    return Err(DbErr::StampExhausted);
                }
                let row = payload.apply(before, now);
                rewrite(&mut db.groups, i, row)
            },
        }
    }

    /// Renames the group with key `id`, stamped with the time of the clock.
    pub fn update_group_by_id(db: &mut Database, id: i32, payload: UpdateGroup) -> (r: Result<
        Group,
        DbErr,
    >)
        requires
            old(db).wf(),
        ensures
            final(db).wf(),
            exists|now: int| #[trigger]
                agrees(old(db)@.update_group(id as int, payload, now), final(db)@, r),
    {
        let now = local_now_micros();
        Self::update_group_by_id_at(db, id, payload, now)
    }

    /// Deletes the group with key `id` and, with it, its configs. A group
    /// that does not exist is no error: the answer then counts no row.
    pub fn delete_group_by_id(db: &mut Database, id: i32) -> (r: Result<DeleteResult, DbErr>)
        requires
            old(db).wf(),
        ensures
            final(db).wf(),
            agrees_on_delete(old(db)@.delete_group(id as int), final(db)@, r),
    {
        let n = db.groups.remove(id);
        if n == 1 {
            let keep = OutsideGroup { group_id: id };
            db.configs.retain(&keep);
        }
        Ok(DeleteResult { rows_affected: n })
    }

    /// Creates a config at time `now`. Its group must exist.
    pub fn create_config_at(db: &mut Database, form: NewConfig, now: Timestamp) -> (r: Result<
        Config,
        DbErr,
    >)
        requires
            old(db).wf(),
        ensures
            final(db).wf(),
            agrees(old(db)@.create_config(form, now as int), final(db)@, r),
    {
        let id = match db.configs.next_id() {
            Some(id) => id,
            None => {
                return Err(DbErr::KeysExhausted);
            },
        };
        let row = Config {
            id,
            group_id: form.group_id,
            name: form.name,
            values: match form.values {
                Some(v) => v,
                None => Json::default_values(),
            },
            created_at: now,
            updated_at: now,
        };
        if db.configs.collision(&row, None) {
            return Err(DbErr::UniqueViolation);
        }
        if db.groups.index_of(row.group_id).is_none() {
            return Err(DbErr::ForeignKeyViolation);
        }
        append(&mut db.configs, row)
    }

    /// Creates a config, stamped with the time of the clock.
    pub fn create_config(db: &mut Database, form: NewConfig) -> (r: Result<Config, DbErr>)
        requires
            old(db).wf(),
        ensures
            final(db).wf(),
            exists|now: int| #[trigger]
                agrees(old(db)@.create_config(form, now), final(db)@, r),
    {
        let now = local_now_micros();
        Self::create_config_at(db, form, now)
    }

    /// Writes the fields of `payload` that are present into the config with
    /// key `id`, at time `now`.
    pub fn update_config_by_id_at(
        db: &mut Database,
        id: i32,
        payload: UpdateConfig,
        now: Timestamp,
    ) -> (r: Result<Config, DbErr>)
        requires
            old(db).wf(),
        ensures
            final(db).wf(),
            agrees(old(db)@.update_config(id as int, payload, now as int), final(db)@, r),
    {
        match db.configs.index_of(id) {
            None => Err(DbErr::RecordNotFound),
            Some(i) => {
                let before = db.configs.row(i).duplicate();
                if before.updated_at == i64::MAX {
                    return Err(DbErr::StampExhausted);
                }
                let row = payload.apply(before, now);
                if db.configs.collision(&row, Some(i)) {
                    return Err(DbErr::UniqueViolation);
                }
                if db.groups.index_of(row.group_id).is_none() {
                    return Err(DbErr::ForeignKeyViolation);
                }
                rewrite(&mut db.configs, i, row)
            },
        }
    }

    /// Writes the fields of `payload` that are present into the config with
    /// key `id`, stamped with the time of the clock.
    pub fn update_config_by_id(db: &mut Database, id: i32, payload: UpdateConfig) -> (r: Result<
        Config,
        DbErr,
    >)
        requires
            old(db).wf(),
        ensures
            final(db).wf(),
            exists|now: int| #[trigger]
                agrees(old(db)@.update_config(id as int, payload, now), final(db)@, r),
    {
        let now = local_now_micros();
        Self::update_config_by_id_at(db, id, payload, now)
    }

    /// Deletes the config with key `id`. A config that does not exist is no
    /// error: the answer then counts no row.
    pub fn delete_config_by_id(db: &mut Database, id: i32) -> (r: Result<DeleteResult, DbErr>)
        requires
            old(db).wf(),
        ensures
            final(db).wf(),
            agrees_on_delete(old(db)@.delete_config(id as int), final(db)@, r),
    {
        Ok(discard(&mut db.configs, id))
    }

    /// Creates an account at time `now`. `password` is stored as it is given.
    pub fn create_user_at(
        db: &mut Database,
        email: String,
        password: String,
        nickname: String,
        now: Timestamp,
    ) -> (r: Result<User, DbErr>)
        requires
            old(db).wf(),
        ensures
            final(db).wf(),
            agrees(
                old(db)@.create_user(email@, password@, nickname@, now as int),
                final(db)@,
                r,
            ),
    {
        let id = match db.users.next_id() {
            Some(id) => id,
            None => {
                return Err(DbErr::KeysExhausted);
            },
        };
        let row = User { id, email, nickname, password, created_at: now, updated_at: now };
        append(&mut db.users, row)
    }

    /// Creates an account, stamped with the time of the clock.
    pub fn create_user(db: &mut Database, email: String, password: String, nickname: String) -> (r:
        Result<User, DbErr>)
        requires
            old(db).wf(),
        ensures
            final(db).wf(),
            exists|now: int| #[trigger]
                agrees(old(db)@.create_user(email@, password@, nickname@, now), final(db)@, r),
    {
        let now = local_now_micros();
        Self::create_user_at(db, email, password, nickname, now)
    }

    /// Creates a template at time `now`.
    pub fn create_template_at(db: &mut Database, payload: NewTemplate, now: Timestamp) -> (r:
        Result<Template, DbErr>)
        requires
            old(db).wf(),
        ensures
            final(db).wf(),
            agrees(old(db)@.create_template(payload, now as int), final(db)@, r),
    {
        let id = match db.templates.next_id() {
            Some(id) => id,
            None => {
                return Err(DbErr::KeysExhausted);
            },
        };
        let row = Template {
            id,
            name: payload.name,
            repo: payload.repo,
            brief: payload.brief,
            kind: String::new(),
            tags: Some(Vec::new()),
            created_at: now,
            updated_at: now,
        };
        assert(row@.tags->Some_0 =~= Seq::<Seq<char>>::empty());
        append(&mut db.templates, row)
    }

    /// Creates a template, stamped with the time of the clock.
    pub fn create_template(db: &mut Database, payload: NewTemplate) -> (r: Result<Template, DbErr>)
        requires
            old(db).wf(),
        ensures
            final(db).wf(),
            exists|now: int| #[trigger]
                agrees(old(db)@.create_template(payload, now), final(db)@, r),
    {
        let now = local_now_micros();
        Self::create_template_at(db, payload, now)
    }

    /// Writes the fields of `payload` that are present into the template
    /// with key `id`, at time `now`.
    pub fn update_template_by_id_at(
        db: &mut Database,
        id: i32,
        payload: UpdateTemplate,
        now: Timestamp,
    ) -> (r: Result<Template, DbErr>)
        requires
            old(db).wf(),
        ensures
            final(db).wf(),
            agrees(old(db)@.update_template(id as int, payload, now as int), final(db)@, r),
    {
        match db.templates.index_of(id) {
            None => Err(DbErr::RecordNotFound),
            Some(i) => {
                let before = db.templates.row(i).duplicate();
                if before.updated_at == i64::MAX {
                    return Err(DbErr::StampExhausted);
                }
                let row = payload.apply(before, now);
                rewrite(&mut db.templates, i, row)
            },
        }
    }

    /// Writes the fields of `payload` that are present into the template
    /// with key `id`, stamped with the time of the clock.
    pub fn update_template_by_id(db: &mut Database, id: i32, payload: UpdateTemplate) -> (r:
        Result<Template, DbErr>)
        requires
            old(db).wf(),
        ensures
            final(db).wf(),
            exists|now: int| #[trigger]
                agrees(old(db)@.update_template(id as int, payload, now), final(db)@, r),
    {
        let now = local_now_micros();
        Self::update_template_by_id_at(db, id, payload, now)
    }

    /// Deletes the template with key `id`. A template that does not exist is
    /// no error: the answer then counts no row.
    pub fn delete_template_by_id(db: &mut Database, id: i32) -> (r: Result<DeleteResult, DbErr>)
        requires
            old(db).wf(),
        ensures
            final(db).wf(),
            agrees_on_delete(old(db)@.delete_template(id as int), final(db)@, r),
    {
        Ok(discard(&mut db.templates, id))
    }

    /// The nickname of the user `user_id`, or the error of a project whose
    /// owner is missing.
    fn owner_name(db: &Database, user_id: i32) -> (r: Result<String, DbErr>)
        requires
            db.wf(),
        ensures
            match lookup::<User>(db@.users.rows, user_id as int) {
                Some(user) => r matches Ok(name) && name@ == user.nickname,
                None => r matches Err(e) && e@ == DbErrView::Custom("Failed to find user"@),
            },
    {
        match db.users.get(user_id) {
            Some(user) => Ok(user.nickname),
            None => Err(DbErr::custom("Failed to find user")),
        }
    }

    /// Creates a project of the user `user_id` at time `now`. The user must
    /// exist: else nothing is written.
    pub fn create_project_at(
        db: &mut Database,
        payload: NewProject,
        user_id: i32,
        now: Timestamp,
    ) -> (r: Result<ProjectVo, DbErr>)
        requires
            old(db).wf(),
        ensures
            final(db).wf(),
            agrees(
                old(db)@.create_project(payload, user_id as int, now as int),
                final(db)@,
                r,
            ),
    {
        let id = match db.projects.next_id() {
            Some(id) => id,
            None => {
                return Err(DbErr::KeysExhausted);
            },
        };
        let row = Project {
            id,
            name: payload.name,
            repo: payload.repo,
            repo_id: payload.repo_id,
            description: payload.description,
            user_id,
            created_at: now,
            updated_at: now,
        };
        let username = match Self::owner_name(db, user_id) {
            Ok(name) => name,
            Err(e) => {
                return Err(e);
            },
        };
        match append(&mut db.projects, row) {
            Ok(project) => Ok(ProjectVo::new(project, username)),
            Err(e) => Err(e),
        }
    }

    /// Creates a project of the user `user_id`, stamped with the time of the
    /// clock.
    pub fn create_project(db: &mut Database, payload: NewProject, user_id: i32) -> (r: Result<
        ProjectVo,
        DbErr,
    >)
        requires
            old(db).wf(),
        ensures
            final(db).wf(),
            exists|now: int| #[trigger]
                agrees(old(db)@.create_project(payload, user_id as int, now), final(db)@, r),
    {
        let now = local_now_micros();
        Self::create_project_at(db, payload, user_id, now)
    }

    /// Writes the fields of `payload` that are present into the project with
    /// key `id`, at time `now`. The owner of the project must exist: else
    /// nothing is written.
    pub fn update_project_by_id_at(
        db: &mut Database,
        id: i32,
        payload: UpdateProject,
        now: Timestamp,
    ) -> (r: Result<ProjectVo, DbErr>)
        requires
            old(db).wf(),
        ensures
            final(db).wf(),
            agrees(old(db)@.update_project(id as int, payload, now as int), final(db)@, r),
    {
        match db.projects.index_of(id) {
            None => Err(DbErr::RecordNotFound),
            Some(i) => {
                let before = db.projects.row(i).duplicate();
                if before.updated_at == i64::MAX {
                    return Err(DbErr::StampExhausted);
                }
                let username = match Self::owner_name(db, before.user_id) {
                    Ok(name) => name,
                    Err(e) => {
                        return Err(e);
                    },
                };
                let row = payload.apply(before, now);
                match rewrite(&mut db.projects, i, row) {
                    Ok(project) => Ok(ProjectVo::new(project, username)),
                    Err(e) => Err(e),
                }
            },
        }
    }

    /// Writes the fields of `payload` that are present into the project with
    /// key `id`, stamped with the time of the clock.
    pub fn update_project_by_id(db: &mut Database, id: i32, payload: UpdateProject) -> (r: Result<
        ProjectVo,
        DbErr,
    >)
        requires
            old(db).wf(),
        ensures
            final(db).wf(),
            exists|now: int| #[trigger]
                agrees(old(db)@.update_project(id as int, payload, now), final(db)@, r),
    {
        let now = local_now_micros();
        Self::update_project_by_id_at(db, id, payload, now)
    }

    /// Deletes the project with key `id`. A project that does not exist is no
    /// error: the answer then counts no row.
    pub fn delete_project_by_id(db: &mut Database, id: i32) -> (r: Result<DeleteResult, DbErr>)
        requires
            old(db).wf(),
        ensures
            final(db).wf(),
            agrees_on_delete(old(db)@.delete_project(id as int), final(db)@, r),
    {
        Ok(discard(&mut db.projects, id))
    }

    /// Deletes every project named `name`. Where there is none the answer
    /// counts no row.
    pub fn delete_project_by_name(db: &mut Database, name: String) -> (r: Result<
        DeleteResult,
        DbErr,
    >)
        requires
            old(db).wf(),
        ensures
            final(db).wf(),
            agrees_on_delete(old(db)@.delete_project_named(name), final(db)@, r),
    {
        let keep = NotNamed { name };
        let n = db.projects.retain(&keep);
        Ok(DeleteResult { rows_affected: n })
    }
}

} // verus!
