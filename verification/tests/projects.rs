use yoo_config::entity::Project;
use yoo_config::handler::{
    create_project, delete_project_by_id, delete_project_by_name, get_project_by_id,
    list_projects, update_project_by_id, AppState,
};
use yoo_config::jwt::{Claims, ClaimsType, Keys};
use yoo_config::models::{NewProject, Pagination, ProjectFilter, UpdateProject};
use yoo_config::mutation::Mutation;
use yoo_config::resp::StatusCode;
use yoo_config::table::Table;

fn state() -> AppState {
    let mut state = AppState::new(Keys::new(b"secret"));
    Mutation::create_user_at(&mut state.conn, "a@x.com".into(), "d".into(), "ann".into(), 1)
        .unwrap();
    state
}

fn caller(id: i32) -> Claims {
    Claims { sub: "a@x.com".to_string(), exp: 0, id, claims_type: ClaimsType::AccessToken }
}

fn project(name: &str) -> NewProject {
    NewProject {
        name: name.to_string(),
        repo: format!("r/{}", name),
        repo_id: 3,
        description: "about".to_string(),
    }
}

fn all() -> ProjectFilter {
    ProjectFilter { name: None, description: None }
}

#[test]
fn created_project_belongs_to_the_caller() {
    let mut state = state();
    let made = create_project(&caller(1), &mut state, project("site")).unwrap();
    assert_eq!((made.code, made.msg.as_str()), (0, "ok"));
    assert_eq!((made.data.id, made.data.user_id, made.data.username.as_str()), (1, 1, "ann"));
    let found = get_project_by_id(&state, 1).unwrap().data;
    assert_eq!(found, made.data);
    let page = list_projects(&state, Pagination::default(), all()).unwrap();
    assert_eq!((page.data.total, page.data.pages), (1, 1));
    assert_eq!(page.data.content, [found]);
}

#[test]
fn project_of_an_unknown_caller_is_refused() {
    let mut state = state();
    assert_eq!(
        create_project(&caller(9), &mut state, project("site")).err(),
        Some((StatusCode::InternalServerError, "Custom Error: Failed to find user".to_string()))
    );
    assert_eq!(state.conn.projects.len(), 0);
    assert_eq!(
        get_project_by_id(&state, 1).err(),
        Some((StatusCode::NotFound, "Project not found".to_string()))
    );
}

#[test]
fn project_without_owner_is_an_internal_error() {
    let mut state = state();
    let orphan = Project {
        id: 1,
        name: "site".to_string(),
        repo: "r/site".to_string(),
        repo_id: 3,
        description: "about".to_string(),
        user_id: 9,
        created_at: 5,
        updated_at: 5,
    };
    state.conn.projects = Table::from_rows(vec![orphan], 1).unwrap();
    assert_eq!(
        get_project_by_id(&state, 1).err(),
        Some((StatusCode::InternalServerError, "Failed to find user".to_string()))
    );
    assert_eq!(
        list_projects(&state, Pagination::default(), all()).err(),
        Some((StatusCode::InternalServerError, "Failed to list projects".to_string()))
    );
    assert_eq!(
        get_project_by_id(&state, 2).err(),
        Some((StatusCode::NotFound, "Project not found".to_string()))
    );
    let none = UpdateProject { name: None, description: None };
    assert_eq!(
        update_project_by_id(&caller(1), &mut state, 1, none).err(),
        Some((StatusCode::InternalServerError, "Custom Error: Failed to find user".to_string()))
    );
}

#[test]
fn projects_are_updated_and_deleted() {
    let mut state = state();
    let by = caller(1);
    for name in ["site", "tool", "site"] {
        create_project(&by, &mut state, project(name)).unwrap();
    }
    let change = UpdateProject { name: None, description: Some("new".to_string()) };
    let changed = update_project_by_id(&by, &mut state, 2, change).unwrap().data;
    assert_eq!((changed.name.as_str(), changed.description.as_str()), ("tool", "new"));
    let none = UpdateProject { name: None, description: None };
    assert_eq!(
        update_project_by_id(&by, &mut state, 8, none).err(),
        Some((
            StatusCode::InternalServerError,
            "RecordNotFound Error: None of the database rows are affected".to_string()
        ))
    );
    assert!(delete_project_by_name(&by, &mut state, "site".to_string()).is_ok());
    assert_eq!(state.conn.projects.len(), 1);
    assert_eq!(
        delete_project_by_name(&by, &mut state, "site".to_string()).err(),
        Some((StatusCode::NotFound, "Project not found".to_string()))
    );
    assert!(delete_project_by_id(&by, &mut state, 2).is_ok());
    assert_eq!(
        delete_project_by_id(&by, &mut state, 2).err(),
        Some((StatusCode::NotFound, "Project not found".to_string()))
    );
    assert_eq!(
        list_projects(&state, Pagination { page: 0, page_size: 1 }, all()).err(),
        Some((StatusCode::BadRequest, "Invalid pagination".to_string()))
    );
}

#[test]
fn a_refresh_token_cannot_write_projects() {
    let mut state = state();
    let held = Claims { claims_type: ClaimsType::RefreshToken, ..caller(1) };
    let refused = || Some((StatusCode::Unauthorized, "Wrong credentials".to_string()));
    assert_eq!(create_project(&held, &mut state, project("site")).err(), refused());
    assert_eq!(state.conn.projects.len(), 0);
    create_project(&caller(1), &mut state, project("site")).unwrap();
    let none = UpdateProject { name: None, description: None };
    assert_eq!(update_project_by_id(&held, &mut state, 1, none).err(), refused());
    assert_eq!(delete_project_by_id(&held, &mut state, 1).err(), refused());
    assert_eq!(delete_project_by_name(&held, &mut state, "site".to_string()).err(), refused());
    assert_eq!(state.conn.projects.len(), 1);
}
