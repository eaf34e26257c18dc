use vstd::prelude::*;
use crate::entity::{Config, Group, Project, ProjectView, Template, TemplateView, User, UserView};
use crate::models::{ConfigFilter, GroupFilter, ProjectFilter, TemplateFilter};
use crate::store::{Database, DatabaseView, DbErr, DbErrView};
use crate::table::{
    found, listing, lookup, ordered_desc, page_count, select, views, Row, RowFilter,
};
use crate::text::{has_string, texts};
use crate::vo::{ProjectVo, ProjectVoView};

verus! {

/// The criterion "belongs to group `group_id`" on configs.
pub open spec fn in_group(group_id: i32) -> ConfigFilter {
    ConfigFilter { group_id: Some(group_id), name: None }
}

/// The owner of a project, if the store holds that user.
pub open spec fn owner_of(db: DatabaseView, project: ProjectView) -> Option<UserView> {
    lookup::<User>(db.users.rows, project.user_id)
}

/// A project as clients see it. Meaningful where the owner exists.
pub open spec fn project_vo(db: DatabaseView, project: ProjectView) -> ProjectVoView {
    ProjectVoView::of(project, owner_of(db, project).unwrap().nickname)
}

/// Whether some template carries `tag`.
pub open spec fn tag_in_use(rows: Seq<TemplateView>, tag: Seq<char>) -> bool {
    exists|i: int| 0 <= i < rows.len() && (#[trigger] rows[i]).tag_list().contains(tag)
}

/// The read operations of the store.
pub struct Query;

impl Query {
    /// The group with key `group_id`, if there is one.
    pub fn get_group_by_id(db: &Database, group_id: i32) -> (r: Result<Option<Group>, DbErr>)
        requires
            db.wf(),
        ensures
            r matches Ok(row) && found(row) == lookup::<Group>(db@.groups.rows, group_id as int),
    {
        Ok(db.groups.get(group_id))
    }

    /// One page of the groups that satisfy `filter`, most recently modified
    /// first, with the number of such groups and the number of pages.
    pub fn list_groups(db: &Database, page: u64, page_size: u64, filter: GroupFilter) -> (r:
        Result<(Vec<Group>, u64, u64), DbErr>)
        requires
            db.wf(),
            page >= 1,
            page_size >= 1,
        ensures
            r matches Ok(p) && {
                &&& views(p.0@) == listing::<Group, GroupFilter>(
                    db@.groups.rows,
                    filter,
                    page as int,
                    page_size as int,
                )
                &&& p.1 == select::<Group, GroupFilter>(db@.groups.rows, filter).len()
                &&& p.2 == page_count(p.1 as int, page_size as int)
                &&& p.0@.len() <= page_size
                &&& forall|i: int| 0 <= i < p.0@.len() ==> filter.matches(#[trigger] p.0@[i]@)
                &&& ordered_desc::<Group>(views(p.0@))
            },
    {
        Ok(db.groups.page(page, page_size, &filter))
    }

    /// The config with key `config_id`, if there is one.
    pub fn get_config_by_id(db: &Database, config_id: i32) -> (r: Result<Option<Config>, DbErr>)
        requires
            db.wf(),
        ensures
            r matches Ok(row) && found(row) == lookup::<Config>(
                db@.configs.rows,
                config_id as int,
            ),
    {
        Ok(db.configs.get(config_id))
    }

    /// How many configs belong to the group `group_id`.
    pub fn get_config_by_group_id(db: &Database, group_id: i32) -> (r: Result<u64, DbErr>)
        ensures
            r matches Ok(n) && n == select::<Config, ConfigFilter>(
                db@.configs.rows,
                in_group(group_id),
            ).len(),
    {
        let filter = ConfigFilter { group_id: Some(group_id), name: None };
        Ok(db.configs.count(&filter))
    }

    /// One page of the configs that satisfy `filter`, most recently modified
    /// first, with the number of such configs and the number of pages.
    pub fn list_configs(db: &Database, page: u64, page_size: u64, filter: ConfigFilter) -> (r:
        Result<(Vec<Config>, u64, u64), DbErr>)
        requires
            db.wf(),
            page >= 1,
            page_size >= 1,
        ensures
            r matches Ok(p) && {
                &&& views(p.0@) == listing::<Config, ConfigFilter>(
                    db@.configs.rows,
                    filter,
                    page as int,
                    page_size as int,
                )
                &&& p.1 == select::<Config, ConfigFilter>(db@.configs.rows, filter).len()
                &&& p.2 == page_count(p.1 as int, page_size as int)
                &&& p.0@.len() <= page_size
                &&& forall|i: int| 0 <= i < p.0@.len() ==> filter.matches(#[trigger] p.0@[i]@)
                &&& ordered_desc::<Config>(views(p.0@))
            },
    {
        Ok(db.configs.page(page, page_size, &filter))
    }

    /// The user with the given email address, if there is one.
    pub fn find_user_by_email(db: &Database, email: &str) -> (r: Result<Option<User>, DbErr>)
        requires
            db.wf(),
        ensures
            r matches Ok(row) && match row {
                Some(u) => db@.users.rows.contains(u@) && u@.email == email@,
                None => forall|i: int|
                    0 <= i < db@.users.rows.len() ==> (#[trigger] db@.users.rows[i]).email
                        != email@,
            },
    {
        let wanted = email.to_owned();
        let mut i: usize = 0;
        while i < db.users.len()
            invariant
                i <= db@.users.rows.len(),
                wanted@ == email@,
                forall|j: int| 0 <= j < i ==> (#[trigger] db@.users.rows[j]).email != email@,
            decreases db@.users.rows.len() - i,
        {
            let user = db.users.row(i);
            if user.email == wanted {
                assert(db@.users.rows[i as int] == user@);
                return Ok(Some(user.duplicate()));
            }
            i += 1;
        }
        Ok(None)
    }

    /// The user with key `id`, if there is one.
    pub fn find_user_by_id(db: &Database, id: i32) -> (r: Result<Option<User>, DbErr>)
        requires
            db.wf(),
        ensures
            r matches Ok(row) && found(row) == lookup::<User>(db@.users.rows, id as int),
    {
        Ok(db.users.get(id))
    }

    /// One page of the templates that satisfy `filter`, most recently
    /// modified first, with the number of such templates and the number of
    /// pages.
    pub fn list_templates(db: &Database, page: u64, page_size: u64, filter: TemplateFilter) -> (r:
        Result<(Vec<Template>, u64, u64), DbErr>)
        requires
            db.wf(),
            page >= 1,
            page_size >= 1,
        ensures
            r matches Ok(p) && {
                &&& views(p.0@) == listing::<Template, TemplateFilter>(
                    db@.templates.rows,
                    filter,
                    page as int,
                    page_size as int,
                )
                &&& p.1 == select::<Template, TemplateFilter>(db@.templates.rows, filter).len()
                &&& p.2 == page_count(p.1 as int, page_size as int)
                &&& p.0@.len() <= page_size
                &&& forall|i: int| 0 <= i < p.0@.len() ==> filter.matches(#[trigger] p.0@[i]@)
                &&& ordered_desc::<Template>(views(p.0@))
            },
    {
        Ok(db.templates.page(page, page_size, &filter))
    }

    /// The template with key `template_id`, if there is one.
    pub fn get_template_by_id(db: &Database, template_id: i32) -> (r: Result<
        Option<Template>,
        DbErr,
    >)
        requires
            db.wf(),
        ensures
            r matches Ok(row) && found(row) == lookup::<Template>(
                db@.templates.rows,
                template_id as int,
            ),
    {
        Ok(db.templates.get(template_id))
    }

    /// The tags that templates carry, each once.
    pub fn get_template_tags(db: &Database) -> (r: Result<Vec<String>, DbErr>)
        ensures
            r matches Ok(tags) && {
                &&& forall|t: Seq<char>| #[trigger]
                    texts(tags@).contains(t) <==> tag_in_use(db@.templates.rows, t)
                &&& forall|i: int, j: int|
                    0 <= i < j < tags@.len() ==> #[trigger] tags@[i]@ != #[trigger] tags@[j]@
            },
    {
        let mut tags: Vec<String> = Vec::new();
        let mut i: usize = 0;
        while i < db.templates.len()
            invariant
                i <= db@.templates.rows.len(),
                forall|t: Seq<char>| #[trigger]
                    texts(tags@).contains(t) <==> tag_in_use(db@.templates.rows.take(i as int), t),
                forall|a: int, b: int|
                    0 <= a < b < tags@.len() ==> #[trigger] tags@[a]@ != #[trigger] tags@[b]@,
            decreases db@.templates.rows.len() - i,
        {
            let row = db.templates.row(i);
            let ghost done = db@.templates.rows.take(i as int);
            let ghost next = db@.templates.rows.take(i + 1);
            let ghost before = texts(tags@);
            match &row.tags {
                Some(list) => {
                    merge_strings(&mut tags, list);
                },
                None => {},
            }
            proof {
                assert forall|t: Seq<char>| #[trigger]
                    texts(tags@).contains(t) <==> before.contains(t) || row@.tag_list().contains(
                        t,
                    ) by {}
                assert(next.drop_last() =~= done);
                assert forall|t: Seq<char>| tag_in_use(next, t) <==> tag_in_use(done, t)
                    || row@.tag_list().contains(t) by {
                    if tag_in_use(next, t) {
                        let w = choose|w: int|
                            0 <= w < next.len() && (#[trigger] next[w]).tag_list().contains(t);
                        if w < i {
                            assert(done[w].tag_list().contains(t));
                        }
                    }
                    if tag_in_use(done, t) {
                        let w = choose|w: int|
                            0 <= w < done.len() && (#[trigger] done[w]).tag_list().contains(t);
                        assert(next[w].tag_list().contains(t));
                    }
                    if row@.tag_list().contains(t) {
                        assert(next[i as int].tag_list().contains(t));
                    }
                }
            }
            i += 1;
        }
        assert(db@.templates.rows.take(i as int) =~= db@.templates.rows);
        Ok(tags)
    }

    /// The project with key `project_id` as clients see it, if there is one.
    /// A project whose owner is missing is an error of its own: the store
    /// holds a reference to a user that it does not hold.
    pub fn get_project_by_id(db: &Database, project_id: i32) -> (r: Result<
        Option<ProjectVo>,
        DbErr,
    >)
        requires
            db.wf(),
        ensures
            match lookup::<Project>(db@.projects.rows, project_id as int) {
                None => r matches Ok(None),
                Some(p) => if owner_of(db@, p) is Some {
                    r matches Ok(Some(vo)) && vo@ == project_vo(db@, p)
                } else {
                    r matches Err(e) && e@ == DbErrView::Custom("User not found"@)
                },
            },
    {
        match db.projects.get(project_id) {
            Some(project) => match db.users.get(project.user_id) {
                Some(user) => Ok(Some(ProjectVo::new(project, user.nickname))),
                None => Err(DbErr::custom("User not found")),
            },
            None => Ok(None),
        }
    }

    /// One page of the projects that satisfy `filter`, most recently
    /// modified first, each with the nickname of its owner, with the number
    /// of such projects and the number of pages. A project on the page whose
    /// owner is missing makes the whole listing fail.
    pub fn list_projects(db: &Database, page: u64, page_size: u64, filter: ProjectFilter) -> (r:
        Result<(Vec<ProjectVo>, u64, u64), DbErr>)
        requires
            db.wf(),
            page >= 1,
            page_size >= 1,
        ensures
            ({
                let rows = listing::<Project, ProjectFilter>(
                    db@.projects.rows,
                    filter,
                    page as int,
                    page_size as int,
                );
                match r {
                    Ok(p) => {
                        &&& forall|i: int|
                            0 <= i < rows.len() ==> owner_of(db@, #[trigger] rows[i]) is Some
                        &&& p.0@.len() == rows.len()
                        &&& forall|i: int|
                            0 <= i < rows.len() ==> (#[trigger] p.0@[i])@ == project_vo(
                                db@,
                                rows[i],
                            )
                        &&& p.1 == select::<Project, ProjectFilter>(db@.projects.rows, filter).len()
                        &&& p.2 == page_count(p.1 as int, page_size as int)
                        &&& p.0@.len() <= page_size
                        &&& forall|i: int| 0 <= i < rows.len() ==> filter.matches(#[trigger] rows[i])
                        &&& ordered_desc::<Project>(rows)
                    },
                    Err(e) => {
                        &&& e@ == DbErrView::Custom("User not found"@)
                        &&& exists|i: int|
                            0 <= i < rows.len() && owner_of(db@, #[trigger] rows[i]) is None
                    },
                }
            }),
    {
        let (list, total, pages) = db.projects.page(page, page_size, &filter);
        let ghost rows = views(list@);
        let mut out: Vec<ProjectVo> = Vec::new();
        let mut i: usize = 0;
        while i < list.len()
            invariant
                db.wf(),
                i <= list@.len(),
                rows == views(list@),
                rows == listing::<Project, ProjectFilter>(
                    db@.projects.rows,
                    filter,
                    page as int,
                    page_size as int,
                ),
                out@.len() == i,
                forall|j: int| 0 <= j < i ==> owner_of(db@, #[trigger] rows[j]) is Some,
                forall|j: int| 0 <= j < i ==> (#[trigger] out@[j])@ == project_vo(db@, rows[j]),
            decreases list@.len() - i,
        {
            let project = list[i].duplicate();
            assert(project@ == rows[i as int]);
            match db.users.get(project.user_id) {
                Some(user) => {
                    out.push(ProjectVo::new(project, user.nickname));
                },
                None => {
                    assert(owner_of(db@, rows[i as int]) is None);
                    return Err(DbErr::custom("User not found"));
                },
            }
            i += 1;
        }
        proof {
            assert forall|j: int| 0 <= j < rows.len() implies filter.matches(#[trigger] rows[j]) by {
                assert(rows[j] == list@[j]@);
            }
        }
        Ok((out, total, pages))
    }
}

/// Adds to `tags` the strings of `list` that it does not hold yet.
fn merge_strings(tags: &mut Vec<String>, list: &Vec<String>)
    requires
        forall|a: int, b: int|
            0 <= a < b < old(tags)@.len() ==> #[trigger] old(tags)@[a]@
                != #[trigger] old(tags)@[b]@,
    ensures
        forall|t: Seq<char>| #[trigger]
            texts(final(tags)@).contains(t) <==> texts(old(tags)@).contains(t) || texts(
                list@,
            ).contains(t),
        forall|a: int, b: int|
            0 <= a < b < final(tags)@.len() ==> #[trigger] final(tags)@[a]@
                != #[trigger] final(tags)@[b]@,
{
    let ghost start = texts(tags@);
    let mut k: usize = 0;
    while k < list.len()
        invariant
            k <= list@.len(),
            start == texts(old(tags)@),
            forall|t: Seq<char>| #[trigger]
                texts(tags@).contains(t) <==> start.contains(t) || texts(list@).take(
                    k as int,
                ).contains(t),
            forall|a: int, b: int|
                0 <= a < b < tags@.len() ==> #[trigger] tags@[a]@ != #[trigger] tags@[b]@,
        decreases list@.len() - k,
    {
        let tag = &list[k];
        let ghost before = texts(tags@);
        let ghost seen = texts(list@).take(k as int);
        let ghost seen_next = texts(list@).take(k + 1);
        let known = has_string(tags, tag);
        if !known {
            tags.push(tag.clone());
            assert(texts(tags@) =~= before.push(tag@));
        }
        proof {
            assert(seen_next =~= seen.push(tag@));
            assert forall|t: Seq<char>| #[trigger]
                texts(tags@).contains(t) <==> start.contains(t) || seen_next.contains(t) by {
                lemma_push_contains(seen, tag@, t);
                if !known {
                    lemma_push_contains(before, tag@, t);
                }
            }
            assert forall|a: int, b: int| 0 <= a < b < tags@.len() implies #[trigger] tags@[a]@
                != #[trigger] tags@[b]@ by {
                if !known && b == tags@.len() - 1 {
                    assert(before[a] == tags@[a]@);
                    assert(before.contains(tags@[a]@));
                }
            }
        }
        k += 1;
    }
    assert(texts(list@).take(k as int) =~= texts(list@));
}

/// What a sequence contains after one more element is pushed.
pub proof fn lemma_push_contains<A>(s: Seq<A>, x: A, y: A)
    ensures
        s.push(x).contains(y) <==> s.contains(y) || y == x,
{
    if s.push(x).contains(y) {
        let i = choose|i: int| 0 <= i < s.push(x).len() && s.push(x)[i] == y;
        if i < s.len() {
            assert(s[i] == y);
        }
    }
    if s.contains(y) {
        let i = choose|i: int| 0 <= i < s.len() && s[i] == y;
        assert(s.push(x)[i] == y);
    }
    if y == x {
        assert(s.push(x)[s.len() as int] == y);
    }
}

} // verus!
