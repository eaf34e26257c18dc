use vstd::prelude::*;
use crate::entity::{
    Config, ConfigView, Group, GroupView, Project, ProjectView, Template, TemplateView, User,
    UserView,
};
use crate::models::{
    later, ConfigFilter, GroupFilter, NewConfig, NewGroup, NewProject, NewTemplate, NewUser,
    ProjectFilter, TemplateFilter, UpdateConfig, UpdateGroup, UpdateProject, UpdateTemplate,
};
use crate::mutation::{appended, rewritten, without, OutsideGroup};
use crate::handler::{fits, is_ok_envelope, logged_in, registered, user_with_email};
use crate::jwt::{
    AuthBody, AuthBodyView, AuthError, AuthPayload, ClaimsType, ClaimsView, ACCESS_LIFETIME,
    REFRESH_LIFETIME,
};
use crate::query::{owner_of, project_vo};
use crate::resp::Response;
use crate::store::{DatabaseView, DbErrView};
use crate::table::{
    collides, has_key, lemma_listing, lemma_page_count_is_ceiling, lemma_position_unique,
    lemma_remove_keeps_wf, lemma_select_all, lemma_select_keeps_wf, lemma_select_membership,
    listing, lookup, page_count, position, select,
    table_wf, Row, RowFilter, TableView,
};

verus! {

/// A row that was appended is found under its key, and every other key
/// finds what it found before.
pub proof fn lemma_appended_lookup<R: Row>(t: TableView<R::V>, row: R::V, id: int)
    requires
        table_wf::<R>(t),
        R::key_of(row) == t.last_id + 1,
        appended::<R>(t, row) is Ok,
    ensures
        table_wf::<R>(appended::<R>(t, row)->Ok_0),
        lookup::<R>(appended::<R>(t, row)->Ok_0.rows, R::key_of(row)) == Some(row),
        id != R::key_of(row) ==> lookup::<R>(appended::<R>(t, row)->Ok_0.rows, id) == lookup::<R>(
            t.rows,
            id,
        ),
{
    let after = appended::<R>(t, row)->Ok_0;
    let n = t.rows.len() as int;
    assert(after.rows[n] == row);
    assert forall|i: int, j: int, k: int|
        0 <= i < j < after.rows.len() && 0 <= k < R::unique_columns() implies #[trigger]
        R::unique_value_of(after.rows[i], k) != #[trigger] R::unique_value_of(
        after.rows[j],
        k,
    ) by {
        if j == n {
            assert(R::unique_value_of(t.rows[i], k) != R::unique_value_of(row, k));
        }
    }
    lemma_position_unique::<R>(after.rows, R::key_of(row), n);
    if id != R::key_of(row) {
        if has_key::<R>(t.rows, id) {
            let i = position::<R>(t.rows, id)->Some_0;
            assert(after.rows[i] == t.rows[i]);
            lemma_position_unique::<R>(after.rows, id, i);
        } else if has_key::<R>(after.rows, id) {
            let i = position::<R>(after.rows, id)->Some_0;
            assert(after.rows[i] == t.rows[i]);
        }
    }
}

/// A row that was rewritten is found under its key, and every other key
/// finds what it found before.
pub proof fn lemma_rewritten_lookup<R: Row>(t: TableView<R::V>, i: int, row: R::V, id: int)
    requires
        table_wf::<R>(t),
        0 <= i < t.rows.len(),
        R::key_of(row) == R::key_of(t.rows[i]),
        rewritten::<R>(t, i, row) is Ok,
    ensures
        table_wf::<R>(rewritten::<R>(t, i, row)->Ok_0),
        lookup::<R>(rewritten::<R>(t, i, row)->Ok_0.rows, R::key_of(row)) == Some(row),
        id != R::key_of(row) ==> lookup::<R>(rewritten::<R>(t, i, row)->Ok_0.rows, id)
            == lookup::<R>(t.rows, id),
{
    let after = rewritten::<R>(t, i, row)->Ok_0;
    assert(after.rows[i] == row);
    assert forall|a: int, b: int, k: int|
        0 <= a < b < after.rows.len() && 0 <= k < R::unique_columns() implies #[trigger]
        R::unique_value_of(after.rows[a], k) != #[trigger] R::unique_value_of(
        after.rows[b],
        k,
    ) by {
        if a == i {
            assert(R::unique_value_of(t.rows[b], k) != R::unique_value_of(row, k));
        } else if b == i {
            assert(R::unique_value_of(t.rows[a], k) != R::unique_value_of(row, k));
        }
    }
    assert forall|a: int, b: int| 0 <= a < b < after.rows.len() implies R::key_of(
        #[trigger] after.rows[a],
    ) != R::key_of(#[trigger] after.rows[b]) by {
        assert(R::key_of(t.rows[a]) != R::key_of(t.rows[b]));
    }
    lemma_position_unique::<R>(after.rows, R::key_of(row), i);
    if id != R::key_of(row) {
        if has_key::<R>(t.rows, id) {
            let j = position::<R>(t.rows, id)->Some_0;
            assert(after.rows[j] == t.rows[j]);
            lemma_position_unique::<R>(after.rows, id, j);
        } else if has_key::<R>(after.rows, id) {
            let j = position::<R>(after.rows, id)->Some_0;
            assert(after.rows[j] == t.rows[j]);
        }
    }
}

/// Deleting by key removes one row where the key exists and none where it
/// does not; afterwards the key finds nothing, and every other key finds what
/// it found before.
pub proof fn lemma_without_lookup<R: Row>(t: TableView<R::V>, gone: int, id: int)
    requires
        table_wf::<R>(t),
    ensures
        table_wf::<R>(without::<R>(t, gone).0),
        without::<R>(t, gone).1 == if has_key::<R>(t.rows, gone) {
            1int
        } else {
            0int
        },
        !has_key::<R>(t.rows, gone) ==> without::<R>(t, gone).0 == t,
        lookup::<R>(without::<R>(t, gone).0.rows, gone) is None,
        id != gone ==> lookup::<R>(without::<R>(t, gone).0.rows, id) == lookup::<R>(t.rows, id),
{
    let after = without::<R>(t, gone).0;
    if has_key::<R>(t.rows, gone) {
        let g = position::<R>(t.rows, gone)->Some_0;
        lemma_remove_keeps_wf::<R>(t, g);
        assert forall|a: int| 0 <= a < after.rows.len() implies #[trigger] after.rows[a]
            == t.rows[if a < g {
            a
        } else {
            a + 1
        }] by {}
        if has_key::<R>(after.rows, gone) {
            let a = position::<R>(after.rows, gone)->Some_0;
            let a0 = if a < g {
                a
            } else {
                a + 1
            };
            assert(after.rows[a] == t.rows[a0]);
            if a0 < g {
                assert(R::key_of(t.rows[a0]) != R::key_of(t.rows[g]));
            } else {
                assert(R::key_of(t.rows[g]) != R::key_of(t.rows[a0]));
            }
        }
        if id != gone {
            if has_key::<R>(t.rows, id) {
                let j = position::<R>(t.rows, id)->Some_0;
                let j1 = if j < g {
                    j
                } else {
                    j - 1
                };
                assert(after.rows[j1] == t.rows[j]);
                lemma_position_unique::<R>(after.rows, id, j1);
            } else if has_key::<R>(after.rows, id) {
                let a = position::<R>(after.rows, id)->Some_0;
                let a0 = if a < g {
                    a
                } else {
                    a + 1
                };
                assert(after.rows[a] == t.rows[a0]);
            }
        }
    }
}

/// A listing never holds more rows than the page size, holds only rows that
/// satisfy the filter, and the page count is the ceiling of the number of
/// rows that satisfy the filter divided by the page size.
pub proof fn lemma_listing_bounds<R: Row, F: RowFilter<R>>(
    rows: Seq<R::V>,
    filter: F,
    page: int,
    size: int,
)
    requires
        page >= 1,
        size >= 1,
    ensures
        listing::<R, F>(rows, filter, page, size).len() <= size,
        forall|i: int|
            0 <= i < listing::<R, F>(rows, filter, page, size).len() ==> filter.matches(
                #[trigger] listing::<R, F>(rows, filter, page, size)[i],
            ),
        ({
            let total = select::<R, F>(rows, filter).len() as int;
            let pages = page_count(total, size);
            pages * size >= total && (total == 0 || (pages - 1) * size < total)
        }),
{
    lemma_listing::<R, F>(rows, filter, page, size);
    lemma_page_count_is_ceiling(select::<R, F>(rows, filter).len() as int, size);
}

/// Without criteria every group is selected.
pub proof fn lemma_no_group_criteria(rows: Seq<GroupView>, filter: GroupFilter)
    requires
        filter.name is None,
    ensures
        select::<Group, GroupFilter>(rows, filter) == rows,
{
    lemma_select_all::<Group, GroupFilter>(rows, filter);
}

/// Without criteria every config is selected.
pub proof fn lemma_no_config_criteria(rows: Seq<ConfigView>, filter: ConfigFilter)
    requires
        filter.name is None,
        filter.group_id is None,
    ensures
        select::<Config, ConfigFilter>(rows, filter) == rows,
{
    lemma_select_all::<Config, ConfigFilter>(rows, filter);
}

/// Without criteria every template is selected.
pub proof fn lemma_no_template_criteria(
    rows: Seq<TemplateView>,
    filter: TemplateFilter,
)
    requires
        filter.name is None,
        filter.kind is None,
        filter.tag is None,
    ensures
        select::<Template, TemplateFilter>(rows, filter) == rows,
{
    lemma_select_all::<Template, TemplateFilter>(rows, filter);
}

/// Without criteria every project is selected.
pub proof fn lemma_no_project_criteria(
    rows: Seq<ProjectView>,
    filter: ProjectFilter,
)
    requires
        filter.name is None,
        filter.description is None,
    ensures
        select::<Project, ProjectFilter>(rows, filter) == rows,
{
    lemma_select_all::<Project, ProjectFilter>(rows, filter);
}

/// An update of a group keeps its key and creation stamp; the
/// modification stamp grows strictly wherever a greater stamp exists.
pub proof fn lemma_update_group_keeps_rest(
    payload: UpdateGroup,
    row: GroupView,
    now: int,
)
    ensures
        payload.applied(row, now).id == row.id,
        payload.applied(row, now).created_at == row.created_at,
        payload.applied(row, now).updated_at == later(now, row.updated_at),
        now > row.updated_at ==> payload.applied(row, now).updated_at == now,
        row.updated_at < i64::MAX ==> payload.applied(row, now).updated_at > row.updated_at,
{
}

/// An update of a config changes no field that the payload leaves out, nor
/// the key or the creation stamp; the modification stamp grows strictly
/// wherever a greater stamp exists.
pub proof fn lemma_update_config_keeps_rest(
    payload: UpdateConfig,
    row: ConfigView,
    now: int,
)
    ensures
        payload.applied(row, now).id == row.id,
        payload.applied(row, now).created_at == row.created_at,
        payload.group_id is None ==> payload.applied(row, now).group_id == row.group_id,
        payload.name is None ==> payload.applied(row, now).name == row.name,
        payload.values is None ==> payload.applied(row, now).values == row.values,
        payload.applied(row, now).updated_at == later(now, row.updated_at),
        now > row.updated_at ==> payload.applied(row, now).updated_at == now,
        row.updated_at < i64::MAX ==> payload.applied(row, now).updated_at > row.updated_at,
{
}

/// An update of a template changes no field that the payload leaves out,
/// nor the key or the creation stamp; the modification stamp grows strictly
/// wherever a greater stamp exists.
pub proof fn lemma_update_template_keeps_rest(
    payload: UpdateTemplate,
    row: TemplateView,
    now: int,
)
    ensures
        payload.applied(row, now).id == row.id,
        payload.applied(row, now).created_at == row.created_at,
        payload.name is None ==> payload.applied(row, now).name == row.name,
        payload.brief is None ==> payload.applied(row, now).brief == row.brief,
        payload.kind is None ==> payload.applied(row, now).kind == row.kind,
        payload.tags is None ==> payload.applied(row, now).tags == row.tags,
        payload.repo is None ==> payload.applied(row, now).repo == row.repo,
        payload.applied(row, now).updated_at == later(now, row.updated_at),
        now > row.updated_at ==> payload.applied(row, now).updated_at == now,
        row.updated_at < i64::MAX ==> payload.applied(row, now).updated_at > row.updated_at,
{
}

/// An update of a project changes no field that the payload leaves out, nor
/// the key, the repository, the owner or the creation stamp; the
/// modification stamp grows strictly wherever a greater stamp exists.
pub proof fn lemma_update_project_keeps_rest(
    payload: UpdateProject,
    row: ProjectView,
    now: int,
)
    ensures
        payload.applied(row, now).id == row.id,
        payload.applied(row, now).created_at == row.created_at,
        payload.applied(row, now).repo == row.repo,
        payload.applied(row, now).repo_id == row.repo_id,
        payload.applied(row, now).user_id == row.user_id,
        payload.name is None ==> payload.applied(row, now).name == row.name,
        payload.description is None ==> payload.applied(row, now).description == row.description,
        payload.applied(row, now).updated_at == later(now, row.updated_at),
        now > row.updated_at ==> payload.applied(row, now).updated_at == now,
        row.updated_at < i64::MAX ==> payload.applied(row, now).updated_at > row.updated_at,
{
}

/// A successful update of a config answers with the stored row after the
/// payload was applied to it, stores that row under the same key, and leaves
/// every other config and every other table as it was.
pub proof fn lemma_update_config_touches_one_row(
    db: DatabaseView,
    id: int,
    payload: UpdateConfig,
    now: int,
    other: int,
)
    requires
        db.wf(),
        db.update_config(id, payload, now).result is Ok,
    ensures
        ({
            let outcome = db.update_config(id, payload, now);
            let row = outcome.result->Ok_0;
            &&& outcome.db.wf()
            &&& lookup::<Config>(db.configs.rows, id) is Some
            &&& row == payload.applied(lookup::<Config>(db.configs.rows, id)->Some_0, now)
            &&& row.updated_at > lookup::<Config>(db.configs.rows, id)->Some_0.updated_at
            &&& lookup::<Config>(outcome.db.configs.rows, id) == Some(row)
            &&& other != id ==> lookup::<Config>(outcome.db.configs.rows, other) == lookup::<
                Config,
            >(db.configs.rows, other)
            &&& outcome.db.groups == db.groups
            &&& outcome.db.users == db.users
            &&& outcome.db.templates == db.templates
            &&& outcome.db.projects == db.projects
        }),
{
    let i = position::<Config>(db.configs.rows, id)->Some_0;
    let row = payload.applied(db.configs.rows[i], now);
    lemma_rewritten_lookup::<Config>(db.configs, i, row, other);
}

/// A successful update of a group answers with the stored row after the
/// payload was applied to it, stores that row under the same key, and leaves
/// every other group as it was.
pub proof fn lemma_update_group_touches_one_row(
    db: DatabaseView,
    id: int,
    payload: UpdateGroup,
    now: int,
    other: int,
)
    requires
        db.wf(),
        db.update_group(id, payload, now).result is Ok,
    ensures
        ({
            let outcome = db.update_group(id, payload, now);
            let row = outcome.result->Ok_0;
            &&& outcome.db.wf()
            &&& lookup::<Group>(db.groups.rows, id) is Some
            &&& row == payload.applied(lookup::<Group>(db.groups.rows, id)->Some_0, now)
            &&& row.updated_at > lookup::<Group>(db.groups.rows, id)->Some_0.updated_at
            &&& lookup::<Group>(outcome.db.groups.rows, id) == Some(row)
            &&& other != id ==> lookup::<Group>(outcome.db.groups.rows, other) == lookup::<Group>(
                db.groups.rows,
                other,
            )
        }),
{
    let i = position::<Group>(db.groups.rows, id)->Some_0;
    lemma_rewritten_lookup::<Group>(db.groups, i, payload.applied(db.groups.rows[i], now), other);
}

/// A successful update of a template answers with the stored row after the
/// payload was applied to it, stores that row under the same key, and leaves
/// every other template as it was.
pub proof fn lemma_update_template_touches_one_row(
    db: DatabaseView,
    id: int,
    payload: UpdateTemplate,
    now: int,
    other: int,
)
    requires
        db.wf(),
        db.update_template(id, payload, now).result is Ok,
    ensures
        ({
            let outcome = db.update_template(id, payload, now);
            let row = outcome.result->Ok_0;
            &&& outcome.db.wf()
            &&& lookup::<Template>(db.templates.rows, id) is Some
            &&& row == payload.applied(lookup::<Template>(db.templates.rows, id)->Some_0, now)
            &&& row.updated_at > lookup::<Template>(db.templates.rows, id)->Some_0.updated_at
            &&& lookup::<Template>(outcome.db.templates.rows, id) == Some(row)
            &&& other != id ==> lookup::<Template>(outcome.db.templates.rows, other) == lookup::<
                Template,
            >(db.templates.rows, other)
        }),
{
    let i = position::<Template>(db.templates.rows, id)->Some_0;
    lemma_rewritten_lookup::<Template>(
        db.templates,
        i,
        payload.applied(db.templates.rows[i], now),
        other,
    );
}

/// A successful update of a project answers with the stored row after the
/// payload was applied to it and the nickname of its owner, stores that row
/// under the same key, and leaves every other project as it was.
pub proof fn lemma_update_project_touches_one_row(
    db: DatabaseView,
    id: int,
    payload: UpdateProject,
    now: int,
    other: int,
)
    requires
        db.wf(),
        db.update_project(id, payload, now).result is Ok,
    ensures
        ({
            let outcome = db.update_project(id, payload, now);
            let before = lookup::<Project>(db.projects.rows, id)->Some_0;
            let row = payload.applied(before, now);
            &&& outcome.db.wf()
            &&& lookup::<Project>(db.projects.rows, id) is Some
            &&& outcome.result->Ok_0 == project_vo(db, row)
            &&& row.updated_at > before.updated_at
            &&& lookup::<Project>(outcome.db.projects.rows, id) == Some(row)
            &&& other != id ==> lookup::<Project>(outcome.db.projects.rows, other) == lookup::<
                Project,
            >(db.projects.rows, other)
        }),
{
    let i = position::<Project>(db.projects.rows, id)->Some_0;
    let row = payload.applied(db.projects.rows[i], now);
    lemma_rewritten_lookup::<Project>(db.projects, i, row, other);
}

/// A write that is refused leaves the store as it was.
pub proof fn lemma_refused_writes_change_nothing(
    db: DatabaseView,
    id: int,
    now: int,
    new_group: NewGroup,
    group: UpdateGroup,
    new_config: NewConfig,
    config: UpdateConfig,
    new_template: NewTemplate,
    template: UpdateTemplate,
    new_project: NewProject,
    project: UpdateProject,
    user: UserView,
)
    ensures
        db.create_group(new_group, now).result is Err ==> db.create_group(new_group, now).db == db,
        db.update_group(id, group, now).result is Err ==> db.update_group(id, group, now).db == db,
        db.create_config(new_config, now).result is Err ==> db.create_config(new_config, now).db
            == db,
        db.update_config(id, config, now).result is Err ==> db.update_config(id, config, now).db
            == db,
        db.create_template(new_template, now).result is Err ==> db.create_template(
            new_template,
            now,
        ).db == db,
        db.update_template(id, template, now).result is Err ==> db.update_template(
            id,
            template,
            now,
        ).db == db,
        db.create_project(new_project, id, now).result is Err ==> db.create_project(
            new_project,
            id,
            now,
        ).db == db,
        db.update_project(id, project, now).result is Err ==> db.update_project(
            id,
            project,
            now,
        ).db == db,
        db.create_user(user.email, user.password, user.nickname, now).result is Err
            ==> db.create_user(user.email, user.password, user.nickname, now).db == db,
{
}

/// Deleting a key that no row carries removes nothing, changes nothing and
/// is no error.
pub proof fn lemma_delete_missing(db: DatabaseView, id: int)
    requires
        db.wf(),
    ensures
        !has_key::<Group>(db.groups.rows, id) ==> db.delete_group(id).db == db
            && db.delete_group(id).result == Ok::<int, DbErrView>(0),
        !has_key::<Config>(db.configs.rows, id) ==> db.delete_config(id).db == db
            && db.delete_config(id).result == Ok::<int, DbErrView>(0),
        !has_key::<Template>(db.templates.rows, id) ==> db.delete_template(id).db == db
            && db.delete_template(id).result == Ok::<int, DbErrView>(0),
        !has_key::<Project>(db.projects.rows, id) ==> db.delete_project(id).db == db
            && db.delete_project(id).result == Ok::<int, DbErrView>(0),
{
}

/// Deleting a key that a row carries removes that row alone: afterwards the
/// key finds nothing and every other key finds what it found before.
pub proof fn lemma_delete_removes_one(db: DatabaseView, id: int, other: int)
    requires
        db.wf(),
        other != id,
    ensures
        lookup::<Config>(db.delete_config(id).db.configs.rows, id) is None,
        lookup::<Config>(db.delete_config(id).db.configs.rows, other) == lookup::<Config>(
            db.configs.rows,
            other,
        ),
        has_key::<Config>(db.configs.rows, id) ==> db.delete_config(id).result == Ok::<
            int,
            DbErrView,
        >(1),
        lookup::<Template>(db.delete_template(id).db.templates.rows, id) is None,
        lookup::<Template>(db.delete_template(id).db.templates.rows, other) == lookup::<Template>(
            db.templates.rows,
            other,
        ),
        lookup::<Project>(db.delete_project(id).db.projects.rows, id) is None,
        lookup::<Project>(db.delete_project(id).db.projects.rows, other) == lookup::<Project>(
            db.projects.rows,
            other,
        ),
        db.delete_config(id).db.wf(),
        db.delete_template(id).db.wf(),
        db.delete_project(id).db.wf(),
{
    lemma_without_lookup::<Config>(db.configs, id, other);
    lemma_without_lookup::<Template>(db.templates, id, other);
    lemma_without_lookup::<Project>(db.projects, id, other);
}

/// Deleting a group that exists removes it and, with it, exactly the configs
/// that belong to it.
pub proof fn lemma_delete_group_cascades(db: DatabaseView, id: i32, config: ConfigView)
    requires
        db.wf(),
        has_key::<Group>(db.groups.rows, id as int),
    ensures
        ({
            let outcome = db.delete_group(id as int);
            &&& outcome.db.wf()
            &&& outcome.result == Ok::<int, DbErrView>(1)
            &&& lookup::<Group>(outcome.db.groups.rows, id as int) is None
            &&& outcome.db.configs.rows.contains(config) <==> db.configs.rows.contains(config)
                && config.group_id != id
            &&& outcome.db.users == db.users
            &&& outcome.db.templates == db.templates
            &&& outcome.db.projects == db.projects
        }),
{
    let keep = OutsideGroup { group_id: id };
    lemma_without_lookup::<Group>(db.groups, id as int, 0);
    lemma_select_keeps_wf::<Config, OutsideGroup>(db.configs, keep);
    lemma_select_membership::<Config, OutsideGroup>(db.configs.rows, keep);
}

/// A group that was created is found under the key it was given, with the
/// name it was created with.
pub proof fn lemma_create_group_round_trip(db: DatabaseView, payload: NewGroup, now: int)
    requires
        db.wf(),
        db.create_group(payload, now).result is Ok,
    ensures
        ({
            let outcome = db.create_group(payload, now);
            let row = outcome.result->Ok_0;
            &&& outcome.db.wf()
            &&& row.name == payload.name@
            &&& row.id == db.groups.last_id + 1
            &&& lookup::<Group>(outcome.db.groups.rows, row.id) == Some(row)
        }),
{
    lemma_appended_lookup::<Group>(db.groups, db.new_group(payload, now), 0);
}

/// A config that was created is found under the key it was given, with the
/// fields it was created with.
pub proof fn lemma_create_config_round_trip(db: DatabaseView, form: NewConfig, now: int)
    requires
        db.wf(),
        db.create_config(form, now).result is Ok,
    ensures
        ({
            let outcome = db.create_config(form, now);
            let row = outcome.result->Ok_0;
            &&& outcome.db.wf()
            &&& row.name == form.name@
            &&& row.group_id == form.group_id
            &&& form.values matches Some(v) ==> row.values == v@
            &&& row.id == db.configs.last_id + 1
            &&& lookup::<Config>(outcome.db.configs.rows, row.id) == Some(row)
            &&& has_key::<Group>(db.groups.rows, row.group_id)
        }),
{
    lemma_appended_lookup::<Config>(db.configs, db.new_config(form, now), 0);
}

/// An account that was created is found under the key it was given, with
/// the fields it was created with.
pub proof fn lemma_create_user_round_trip(
    db: DatabaseView,
    email: Seq<char>,
    password: Seq<char>,
    nickname: Seq<char>,
    now: int,
)
    requires
        db.wf(),
        db.create_user(email, password, nickname, now).result is Ok,
    ensures
        ({
            let outcome = db.create_user(email, password, nickname, now);
            let row = outcome.result->Ok_0;
            &&& outcome.db.wf()
            &&& row.email == email
            &&& row.password == password
            &&& row.nickname == nickname
            &&& row.id == db.users.last_id + 1
            &&& lookup::<User>(outcome.db.users.rows, row.id) == Some(row)
        }),
{
    lemma_appended_lookup::<User>(db.users, db.new_user(email, password, nickname, now), 0);
}

/// A template that was created is found under the key it was given, with
/// the fields it was created with.
pub proof fn lemma_create_template_round_trip(db: DatabaseView, payload: NewTemplate, now: int)
    requires
        db.wf(),
        db.create_template(payload, now).result is Ok,
    ensures
        ({
            let outcome = db.create_template(payload, now);
            let row = outcome.result->Ok_0;
            &&& outcome.db.wf()
            &&& row.name == payload.name@
            &&& row.brief == payload.brief@
            &&& row.repo == payload.repo@
            &&& row.id == db.templates.last_id + 1
            &&& lookup::<Template>(outcome.db.templates.rows, row.id) == Some(row)
        }),
{
    lemma_appended_lookup::<Template>(db.templates, db.new_template(payload, now), 0);
}

/// A project that was created for an existing user is found under the key
/// it was given, and the answer of the creation is the stored project with
/// its owner's nickname.
pub proof fn lemma_create_project_round_trip(
    db: DatabaseView,
    payload: NewProject,
    user_id: int,
    now: int,
)
    requires
        db.wf(),
        db.create_project(payload, user_id, now).result is Ok,
    ensures
        ({
            let outcome = db.create_project(payload, user_id, now);
            let row = db.new_project(payload, user_id, now);
            &&& outcome.db.wf()
            &&& lookup::<Project>(outcome.db.projects.rows, row.id) == Some(row)
            &&& owner_of(outcome.db, row) is Some
            &&& outcome.result->Ok_0 == project_vo(outcome.db, row)
            &&& outcome.result->Ok_0.name == payload.name@
            &&& outcome.result->Ok_0.user_id == user_id
        }),
{
    lemma_appended_lookup::<Project>(db.projects, db.new_project(payload, user_id, now), 0);
}

/// Registration with a digest at hand, a key left in the sequence, an email
/// address and a nickname that nobody has, and both tokens signed: the
/// account is added as the one new row, with the digest in place of the
/// password, and the answer is the ok envelope of a `Bearer` pair whose
/// tokens sign the access and the refresh claims of the new account.
pub proof fn lemma_registration_succeeds(
    before: DatabaseView,
    keys: Seq<u8>,
    payload: NewUser,
    digest: Seq<char>,
    stamp: int,
    now: int,
    after: DatabaseView,
    r: Result<Response<AuthBody>, AuthError>,
)
    requires
        before.wf(),
        registered(before, keys, payload, Some(digest), stamp, now, after, r),
        before.users.last_id < i32::MAX,
        !collides::<User>(
            before.users.rows,
            before.new_user(payload.email@, digest, payload.nickname@, stamp),
            -1,
        ),
        AuthBodyView::issued(
            before.new_user(payload.email@, digest, payload.nickname@, stamp),
            keys,
            now,
        ) is Ok,
    ensures
        ({
            let user = before.new_user(payload.email@, digest, payload.nickname@, stamp);
            let access = ClaimsView::issued(
                user,
                ClaimsType::AccessToken,
                now,
                ACCESS_LIFETIME as int,
            );
            let refresh = ClaimsView::issued(
                user,
                ClaimsType::RefreshToken,
                now,
                REFRESH_LIFETIME as int,
            );
            &&& after.wf()
            &&& after.users.rows == before.users.rows.push(user)
            &&& user.id == before.users.last_id + 1
            &&& user.email == payload.email@
            &&& user.nickname == payload.nickname@
            &&& user.password == digest
            &&& lookup::<User>(after.users.rows, user.id) == Some(user)
            &&& access.sub == payload.email@ && access.id == user.id
            &&& refresh.sub == payload.email@ && refresh.id == user.id
            &&& r matches Ok(resp)
            &&& is_ok_envelope(r->Ok_0)
            &&& r->Ok_0.data@.token_type == "Bearer"@
            &&& access.token(keys) == Some(r->Ok_0.data@.access_token)
            &&& refresh.token(keys) == Some(r->Ok_0.data@.refresh_token)
        }),
{
    let user = before.new_user(payload.email@, digest, payload.nickname@, stamp);
    lemma_appended_lookup::<User>(before.users, user, 0);
}

/// After a registration that stored a digest which the password fits, a
/// login with the same email address and password finds the account and is
/// answered with a pair of tokens for it, issued at the time of the login; it
/// fails only where a token cannot be signed.
pub proof fn lemma_login_after_registration(
    db: DatabaseView,
    keys: Seq<u8>,
    payload: NewUser,
    digest: Seq<char>,
    stamp: int,
    login: AuthPayload,
    now: int,
)
    requires
        db.wf(),
        fits(payload.password@, Some(digest)),
        db.create_user(payload.email@, digest, payload.nickname@, stamp).result is Ok,
        login.email@ == payload.email@,
        login.password@ == payload.password@,
        payload.email@.len() > 0,
        payload.password@.len() > 0,
    ensures
        ({
            let outcome = db.create_user(payload.email@, digest, payload.nickname@, stamp);
            let user = outcome.result->Ok_0;
            &&& user_with_email(outcome.db, login.email@) == Some(user)
            &&& logged_in(outcome.db, keys, login, now) == match AuthBodyView::issued(
                user,
                keys,
                now,
            ) {
                Ok(body) => Ok::<AuthBodyView, AuthError>(body),
                Err(_) => Err::<AuthBodyView, AuthError>(AuthError::WrongCredentials),
            }
        }),
{
    let user = db.new_user(payload.email@, digest, payload.nickname@, stamp);
    let outcome = db.create_user(payload.email@, digest, payload.nickname@, stamp);
    lemma_appended_lookup::<User>(db.users, user, 0);
    let rows = outcome.db.users.rows;
    let n = db.users.rows.len() as int;
    assert(rows[n] == user);
    assert(rows[n].email == login.email@);
    let j = choose|j: int| 0 <= j < rows.len() && (#[trigger] rows[j]).email == login.email@;
    if j < n {
        assert(User::unique_value_of(rows[j], 0) != User::unique_value_of(rows[n], 0));
    }
}

} // verus!
