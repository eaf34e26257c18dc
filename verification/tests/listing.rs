use yoo_config::entity::{Group, Project, Template};
use yoo_config::models::{
    default_page, default_page_size, ConfigFilter, GroupFilter, NewConfig, NewGroup, NewProject,
    NewTemplate, Pagination, ProjectFilter, TemplateFilter, UpdateTemplate,
};
use yoo_config::mutation::Mutation;
use yoo_config::query::Query;
use yoo_config::store::{Database, DbErr};
use yoo_config::table::{paginate, Table};

fn group_names(groups: &[Group]) -> Vec<String> {
    groups.iter().map(|g| g.name.clone()).collect()
}

fn db_with_groups(names: &[&str]) -> Database {
    let mut db = Database::new();
    for (i, name) in names.iter().enumerate() {
        Mutation::create_group_at(&mut db, NewGroup { name: name.to_string() }, 100 + i as i64)
            .unwrap();
    }
    db
}

#[test]
fn default_pagination_is_first_page_of_ten() {
    assert_eq!(default_page(), 1);
    assert_eq!(default_page_size(), 10);
    let p = Pagination::default();
    assert_eq!((p.page, p.page_size), (1, 10));
    assert!(p.is_valid());
    assert!(!Pagination { page: 0, page_size: 10 }.is_valid());
    assert!(!Pagination { page: 1, page_size: 0 }.is_valid());
}

#[test]
fn paginate_cuts_pages_and_counts() {
    let rows: Vec<u32> = (1..=7).collect();
    assert_eq!(paginate(rows.clone(), 1, 3), (vec![1, 2, 3], 7, 3));
    assert_eq!(paginate(rows.clone(), 2, 3), (vec![4, 5, 6], 7, 3));
    assert_eq!(paginate(rows.clone(), 3, 3), (vec![7], 7, 3));
    assert_eq!(paginate(rows.clone(), 4, 3), (vec![], 7, 3));
    assert_eq!(paginate(rows.clone(), 1, 7), (rows.clone(), 7, 1));
    assert_eq!(paginate(rows.clone(), 1, 100), (rows.clone(), 7, 1));
    assert_eq!(paginate(rows.clone(), 7, 1), (vec![7], 7, 7));
}

#[test]
fn paginate_of_nothing_has_no_pages() {
    let rows: Vec<u32> = Vec::new();
    assert_eq!(paginate(rows, 1, 10), (vec![], 0, 0));
}

#[test]
fn paginate_survives_huge_page_numbers() {
    let rows: Vec<u32> = (1..=5).collect();
    assert_eq!(paginate(rows.clone(), u64::MAX, u64::MAX), (vec![], 5, 1));
    assert_eq!(paginate(rows.clone(), u64::MAX, 2), (vec![], 5, 3));
    assert_eq!(paginate(rows, 1, u64::MAX), (vec![1, 2, 3, 4, 5], 5, 1));
}

#[test]
fn page_count_is_the_ceiling() {
    for total in 0u64..40 {
        for size in 1u64..9 {
            let rows: Vec<u64> = (0..total).collect();
            let (items, count, pages) = paginate(rows, 1, size);
            assert_eq!(count, total);
            assert_eq!(pages, (total + size - 1) / size);
            assert!(items.len() as u64 <= size);
        }
    }
}

#[test]
fn groups_are_listed_most_recent_first() {
    let db = db_with_groups(&["alpha", "beta", "gamma", "delta"]);
    let (items, total, pages) =
        Query::list_groups(&db, 1, 3, GroupFilter::default()).unwrap();
    assert_eq!(group_names(&items), ["delta", "gamma", "beta"]);
    assert_eq!((total, pages), (4, 2));
    let (items, total, pages) =
        Query::list_groups(&db, 2, 3, GroupFilter::default()).unwrap();
    assert_eq!(group_names(&items), ["alpha"]);
    assert_eq!((total, pages), (4, 2));
}

#[test]
fn page_beyond_the_last_is_empty_with_right_counts() {
    let db = db_with_groups(&["alpha", "beta", "gamma"]);
    let (items, total, pages) =
        Query::list_groups(&db, 5, 2, GroupFilter::default()).unwrap();
    assert!(items.is_empty());
    assert_eq!((total, pages), (3, 2));
}

#[test]
fn equal_stamps_keep_table_order() {
    let mut db = Database::new();
    for name in ["a", "b", "c"] {
        Mutation::create_group_at(&mut db, NewGroup { name: name.to_string() }, 7).unwrap();
    }
    let (items, _, _) = Query::list_groups(&db, 1, 10, GroupFilter::default()).unwrap();
    assert_eq!(group_names(&items), ["a", "b", "c"]);
}

#[test]
fn name_filter_is_substring_containment() {
    let db = db_with_groups(&["alpha", "beta", "alphabet", "gamma"]);
    let filter = GroupFilter { name: Some("lph".to_string()) };
    let (items, total, pages) = Query::list_groups(&db, 1, 10, filter).unwrap();
    assert_eq!(group_names(&items), ["alphabet", "alpha"]);
    assert_eq!((total, pages), (2, 1));
    let none = GroupFilter { name: Some("zzz".to_string()) };
    let (items, total, pages) = Query::list_groups(&db, 1, 10, none).unwrap();
    assert!(items.is_empty());
    assert_eq!((total, pages), (0, 0));
    let empty = GroupFilter { name: Some(String::new()) };
    let (_, total, _) = Query::list_groups(&db, 1, 10, empty).unwrap();
    assert_eq!(total, 4);
}

#[test]
fn substring_filter_takes_wildcard_characters_literally() {
    let db = db_with_groups(&["a%b", "axb", "a_b"]);
    let (items, _, _) =
        Query::list_groups(&db, 1, 10, GroupFilter { name: Some("%".to_string()) }).unwrap();
    assert_eq!(group_names(&items), ["a%b"]);
    let (items, _, _) =
        Query::list_groups(&db, 1, 10, GroupFilter { name: Some("_".to_string()) }).unwrap();
    assert_eq!(group_names(&items), ["a_b"]);
}

#[test]
fn without_criteria_the_total_is_the_table_size() {
    let db = db_with_groups(&["alpha", "beta", "gamma"]);
    let (_, total, _) = Query::list_groups(&db, 1, 1, GroupFilter::default()).unwrap();
    assert_eq!(total, db.groups.len() as u64);
}

fn db_with_configs() -> Database {
    let mut db = db_with_groups(&["g1", "g2"]);
    let forms = [(1, "db.host"), (1, "db.port"), (2, "cache.host"), (2, "cache.ttl")];
    for (i, (group_id, name)) in forms.iter().enumerate() {
        Mutation::create_config_at(
            &mut db,
            NewConfig { group_id: *group_id, name: name.to_string(), values: None },
            200 + i as i64,
        )
        .unwrap();
    }
    db
}

#[test]
fn config_filters_are_conjunctive() {
    let db = db_with_configs();
    let by_group = ConfigFilter { group_id: Some(1), name: None };
    let (items, total, _) = Query::list_configs(&db, 1, 10, by_group).unwrap();
    assert_eq!(total, 2);
    assert!(items.iter().all(|c| c.group_id == 1));
    let by_name = ConfigFilter { group_id: None, name: Some("host".to_string()) };
    let (items, total, _) = Query::list_configs(&db, 1, 10, by_name).unwrap();
    assert_eq!(total, 2);
    assert!(items.iter().all(|c| c.name.contains("host")));
    let both = ConfigFilter { group_id: Some(2), name: Some("host".to_string()) };
    let (items, total, pages) = Query::list_configs(&db, 1, 10, both).unwrap();
    assert_eq!((total, pages), (1, 1));
    assert_eq!(items[0].name, "cache.host");
    let (_, total, _) = Query::list_configs(&db, 1, 10, ConfigFilter::default()).unwrap();
    assert_eq!(total, 4);
}

#[test]
fn configs_are_listed_most_recent_first() {
    let db = db_with_configs();
    let (items, _, _) = Query::list_configs(&db, 1, 10, ConfigFilter::default()).unwrap();
    let names: Vec<&str> = items.iter().map(|c| c.name.as_str()).collect();
    assert_eq!(names, ["cache.ttl", "cache.host", "db.port", "db.host"]);
}

#[test]
fn configs_of_a_group_are_counted() {
    let db = db_with_configs();
    assert_eq!(Query::get_config_by_group_id(&db, 1), Ok(2));
    assert_eq!(Query::get_config_by_group_id(&db, 2), Ok(2));
    assert_eq!(Query::get_config_by_group_id(&db, 3), Ok(0));
}

fn db_with_templates() -> Database {
    let mut db = Database::new();
    let rows = [
        ("web", "r/web", "site", "frontend", vec!["rust", "http"]),
        ("cli", "r/cli", "tool", "backend", vec!["rust"]),
        ("docs", "r/docs", "book", "frontend", vec![]),
    ];
    for (i, (name, repo, brief, kind, tags)) in rows.iter().enumerate() {
        let t = Mutation::create_template_at(
            &mut db,
            NewTemplate { name: name.to_string(), brief: brief.to_string(), repo: repo.to_string() },
            300 + i as i64,
        )
        .unwrap();
        Mutation::update_template_by_id_at(
            &mut db,
            t.id,
            UpdateTemplate {
                name: None,
                brief: None,
                kind: Some(kind.to_string()),
                tags: Some(tags.iter().map(|t| t.to_string()).collect()),
                repo: None,
            },
            400 + i as i64,
        )
        .unwrap();
    }
    db
}

fn template_names(items: &[Template]) -> Vec<&str> {
    items.iter().map(|t| t.name.as_str()).collect()
}

#[test]
fn tag_filter_tests_membership() {
    let db = db_with_templates();
    let rust = TemplateFilter { name: None, kind: None, tag: Some("rust".to_string()) };
    let (items, total, _) = Query::list_templates(&db, 1, 10, rust).unwrap();
    assert_eq!(template_names(&items), ["cli", "web"]);
    assert_eq!(total, 2);
    let part = TemplateFilter { name: None, kind: None, tag: Some("rus".to_string()) };
    let (items, total, _) = Query::list_templates(&db, 1, 10, part).unwrap();
    assert!(items.is_empty());
    assert_eq!(total, 0);
}

#[test]
fn template_filters_are_conjunctive() {
    let db = db_with_templates();
    let filter = TemplateFilter {
        name: Some("e".to_string()),
        kind: Some("front".to_string()),
        tag: Some("http".to_string()),
    };
    let (items, total, _) = Query::list_templates(&db, 1, 10, filter).unwrap();
    assert_eq!(template_names(&items), ["web"]);
    assert_eq!(total, 1);
    let kind = TemplateFilter { name: None, kind: Some("frontend".to_string()), tag: None };
    let (items, _, _) = Query::list_templates(&db, 1, 10, kind).unwrap();
    assert_eq!(template_names(&items), ["docs", "web"]);
    let all = TemplateFilter { name: None, kind: None, tag: None };
    let (_, total, pages) = Query::list_templates(&db, 1, 2, all).unwrap();
    assert_eq!((total, pages), (3, 2));
}

#[test]
fn template_tags_come_once_each() {
    let mut db = db_with_templates();
    let tags = Query::get_template_tags(&db).unwrap();
    assert_eq!(tags, ["rust", "http"]);
    assert_eq!(Query::get_template_tags(&Database::new()).unwrap(), Vec::<String>::new());
    // A template without a list of tags carries none and matches no tag.
    let mut bare = db.templates.get(1).unwrap();
    bare.tags = None;
    db.templates = Table::from_rows(vec![bare, db.templates.get(2).unwrap()], 3).unwrap();
    assert_eq!(Query::get_template_tags(&db).unwrap(), ["rust"]);
    let http = TemplateFilter { name: None, kind: None, tag: Some("http".to_string()) };
    assert_eq!(Query::list_templates(&db, 1, 10, http).unwrap().1, 0);
    let all = TemplateFilter { name: None, kind: None, tag: None };
    assert_eq!(Query::list_templates(&db, 1, 10, all).unwrap().1, 2);
}

fn db_with_projects() -> Database {
    let mut db = Database::new();
    Mutation::create_user_at(&mut db, "a@x.com".into(), "digest".into(), "ann".into(), 1).unwrap();
    Mutation::create_user_at(&mut db, "b@x.com".into(), "digest".into(), "bob".into(), 2).unwrap();
    let rows = [("site", "the web site", 1), ("tool", "a command line tool", 2), ("blog", "web log", 1)];
    for (i, (name, description, user_id)) in rows.iter().enumerate() {
        Mutation::create_project_at(
            &mut db,
            NewProject {
                name: name.to_string(),
                repo: format!("r/{}", name),
                repo_id: 10 + i as i32,
                description: description.to_string(),
            },
            *user_id,
            500 + i as i64,
        )
        .unwrap();
    }
    db
}

#[test]
fn projects_are_listed_with_their_owner() {
    let db = db_with_projects();
    let all = ProjectFilter { name: None, description: None };
    let (items, total, pages) = Query::list_projects(&db, 1, 2, all).unwrap();
    assert_eq!((total, pages), (3, 2));
    let seen: Vec<(&str, &str)> =
        items.iter().map(|p| (p.name.as_str(), p.username.as_str())).collect();
    assert_eq!(seen, [("blog", "ann"), ("tool", "bob")]);
    let web = ProjectFilter { name: None, description: Some("web".to_string()) };
    let (items, total, _) = Query::list_projects(&db, 1, 10, web).unwrap();
    assert_eq!(total, 2);
    assert!(items.iter().all(|p| p.description.contains("web")));
    let both =
        ProjectFilter { name: Some("sit".to_string()), description: Some("web".to_string()) };
    let (items, _, _) = Query::list_projects(&db, 1, 10, both).unwrap();
    assert_eq!(items.len(), 1);
    assert_eq!(items[0].id, 1);
    assert_eq!(items[0].repo, "r/site");
    assert_eq!(items[0].repo_id, 10);
    assert_eq!(items[0].user_id, 1);
    assert_eq!(items[0].created_at, 500);
}

/// The projects of `db_with_projects` and, as the most recent one, a
/// project whose owner the store does not hold.
fn db_with_orphan() -> Database {
    let mut db = db_with_projects();
    let mut rows: Vec<Project> = (1..=3).map(|id| db.projects.get(id).unwrap()).collect();
    rows.push(Project {
        id: 4,
        name: "lost".to_string(),
        repo: "r/lost".to_string(),
        repo_id: 99,
        description: "nobody owns this".to_string(),
        user_id: 42,
        created_at: 900,
        updated_at: 900,
    });
    db.projects = Table::from_rows(rows, 4).unwrap();
    db
}

#[test]
fn project_of_a_missing_user_is_refused() {
    let mut db = db_with_projects();
    let lost = NewProject {
        name: "lost".to_string(),
        repo: "r/lost".to_string(),
        repo_id: 99,
        description: "nobody owns this".to_string(),
    };
    assert_eq!(
        Mutation::create_project_at(&mut db, lost, 42, 900),
        Err(DbErr::Custom("Failed to find user".to_string()))
    );
    assert_eq!(db.projects.len(), 3);
    assert_eq!(db.projects.next_id(), Some(4));
}

#[test]
fn project_without_owner_fails_the_listing() {
    let db = db_with_orphan();
    assert_eq!(db.projects.len(), 4);
    let all = ProjectFilter { name: None, description: None };
    assert_eq!(
        Query::list_projects(&db, 1, 10, all.clone()),
        Err(DbErr::Custom("User not found".to_string()))
    );
    // The orphan is the most recent project: a page that does not hold it is served.
    let (items, total, _) = Query::list_projects(&db, 2, 1, all).unwrap();
    assert_eq!(total, 4);
    assert_eq!(items[0].name, "blog");
}

#[test]
fn missing_project_and_missing_owner_are_told_apart() {
    let db = db_with_orphan();
    let found = Query::get_project_by_id(&db, 2).unwrap().unwrap();
    assert_eq!((found.name.as_str(), found.username.as_str()), ("tool", "bob"));
    assert_eq!(Query::get_project_by_id(&db, 77), Ok(None));
    assert_eq!(
        Query::get_project_by_id(&db, 4),
        Err(DbErr::Custom("User not found".to_string()))
    );
}

#[test]
fn project_rows_keep_their_fields() {
    let db = db_with_projects();
    let row: Project = db.projects.get(3).unwrap();
    assert_eq!(
        row,
        Project {
            id: 3,
            name: "blog".to_string(),
            repo: "r/blog".to_string(),
            repo_id: 12,
            description: "web log".to_string(),
            user_id: 1,
            created_at: 502,
            updated_at: 502,
        }
    );
}
