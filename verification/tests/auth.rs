use yoo_config::entity::User;
use yoo_config::handler::{
    create_config, create_group, create_template, delete_config_by_id, delete_group_by_id,
    delete_template_by_id, get_config_by_id, get_group_by_id, get_template_by_id,
    get_template_tags, list_configs, list_groups, list_templates, login, login_at, profile,
    refresh, refresh_at, register, register_with, update_config_by_id, update_group_by_id,
    update_template_by_id, AppState,
};
use yoo_config::jwt::{
    gen_auth_body, issue_token_pair, AuthBody, AuthError, AuthPayload, Claims, ClaimsType, Keys,
    ACCESS_LIFETIME, REFRESH_LIFETIME,
};
use yoo_config::models::{
    ConfigFilter, GroupFilter, NewConfig, NewGroup, NewTemplate, NewUser, Pagination,
    TemplateFilter, UpdateConfig, UpdateGroup, UpdateTemplate,
};
use yoo_config::mutation::Mutation;
use yoo_config::resp::StatusCode;

fn keys() -> Keys {
    Keys::new(b"a secret for tests")
}

fn user() -> User {
    User {
        id: 7,
        email: "a@x.com".to_string(),
        nickname: "a".to_string(),
        password: "digest".to_string(),
        created_at: 1,
        updated_at: 1,
    }
}

fn now() -> i64 {
    std::time::SystemTime::now().duration_since(std::time::UNIX_EPOCH).unwrap().as_secs() as i64
}

fn access_claims() -> Claims {
    Claims { sub: "a@x.com".to_string(), exp: 0, id: 7, claims_type: ClaimsType::AccessToken }
}

fn state_with_user(digest: &str) -> AppState {
    let mut state = AppState::new(keys());
    Mutation::create_user_at(&mut state.conn, "a@x.com".into(), digest.into(), "a".into(), 5)
        .unwrap();
    state
}

#[test]
fn keys_hold_the_secret() {
    assert_eq!(Keys::new(b"abc").secret, b"abc");
    assert_eq!(Keys::new(b"").secret, b"");
}

#[test]
fn claims_are_issued_with_their_lifetime() {
    assert_eq!((ACCESS_LIFETIME, REFRESH_LIFETIME), (2 * 60 * 60, 7 * 24 * 60 * 60));
    let access = Claims::issue(&user(), ClaimsType::AccessToken, 1_000);
    assert_eq!(
        access,
        Claims {
            sub: "a@x.com".to_string(),
            exp: 8_200,
            id: 7,
            claims_type: ClaimsType::AccessToken
        }
    );
    let refresh = Claims::issue(&user(), ClaimsType::RefreshToken, 1_000);
    assert_eq!(
        refresh,
        Claims {
            sub: "a@x.com".to_string(),
            exp: 605_800,
            id: 7,
            claims_type: ClaimsType::RefreshToken
        }
    );
}

#[test]
fn expiry_never_falls_before_the_epoch() {
    assert_eq!(Claims::expires_at(0, 7200), 7200);
    assert_eq!(Claims::expires_at(-7200, 7200), 0);
    assert_eq!(Claims::expires_at(-7201, 7200), 0);
    assert_eq!(Claims::expires_at(i64::MIN, 0), 0);
    assert_eq!(Claims::expires_at(i64::MAX, 0), i64::MAX as u64);
    assert_eq!(Claims::expires_at(i64::MAX, 604_800), i64::MAX as u64 + 604_800);
}

#[test]
fn claim_kinds_have_names() {
    assert_eq!(ClaimsType::AccessToken.as_str(), "access_token");
    assert_eq!(ClaimsType::RefreshToken.as_str(), "refresh_token");
    assert_eq!(
        ClaimsType::from_name(&"access_token".to_string()),
        Some(ClaimsType::AccessToken)
    );
    assert_eq!(
        ClaimsType::from_name(&"refresh_token".to_string()),
        Some(ClaimsType::RefreshToken)
    );
    assert_eq!(ClaimsType::from_name(&"AccessToken".to_string()), None);
    assert_eq!(ClaimsType::from_name(&String::new()), None);
}

#[test]
fn claims_become_four_members() {
    let claims = Claims { exp: 99, ..access_claims() };
    let object = claims.to_members();
    assert_eq!(object.len(), 4);
    assert_eq!(object.get("sub").and_then(|v| v.as_str()), Some("a@x.com"));
    assert_eq!(object.get("exp").and_then(|v| v.as_u64()), Some(99));
    assert_eq!(object.get("id").and_then(|v| v.as_i64()), Some(7));
    assert_eq!(object.get("claims_type").and_then(|v| v.as_str()), Some("access_token"));
    assert_eq!(Claims::from_members(&object), Some(claims));
}

#[test]
fn members_round_trip_at_the_limits() {
    for id in [i32::MIN, -1, 0, i32::MAX] {
        for exp in [0, 1, u64::MAX] {
            for claims_type in [ClaimsType::AccessToken, ClaimsType::RefreshToken] {
                let claims = Claims { sub: String::new(), exp, id, claims_type };
                assert_eq!(Claims::from_members(&claims.to_members()), Some(claims));
            }
        }
    }
}

#[test]
fn members_must_be_there_and_of_their_type() {
    let good = Claims { exp: 99, ..access_claims() }.to_members();
    for name in ["sub", "exp", "id", "claims_type"] {
        let mut object = good.clone();
        object.remove(name);
        assert_eq!(Claims::from_members(&object), None);
    }
    let spoil = |name: &str, value: serde_json::Value| {
        let mut object = good.clone();
        object.insert(name.to_string(), value);
        Claims::from_members(&object)
    };
    assert_eq!(spoil("sub", serde_json::Value::from(1)), None);
    assert_eq!(spoil("exp", serde_json::Value::from(-1)), None);
    assert_eq!(spoil("exp", serde_json::Value::from("99")), None);
    assert_eq!(spoil("exp", serde_json::Value::from(1.5)), None);
    assert_eq!(spoil("id", serde_json::Value::from(i32::MAX as i64 + 1)), None);
    assert_eq!(spoil("id", serde_json::Value::from(i32::MIN as i64 - 1)), None);
    assert_eq!(spoil("id", serde_json::Value::from(u64::MAX)), None);
    assert_eq!(spoil("id", serde_json::Value::Null), None);
    assert_eq!(spoil("claims_type", serde_json::Value::from("bearer")), None);
    assert_eq!(spoil("claims_type", serde_json::Value::from(true)), None);
    let extra = spoil("iss", serde_json::Value::from("somebody"));
    assert_eq!(extra, Some(Claims { exp: 99, ..access_claims() }));
}

#[test]
fn tokens_are_signed_and_depend_on_claims_and_secret() {
    let claims = Claims { exp: 99, ..access_claims() };
    let token = claims.encode(&keys()).unwrap();
    assert_eq!(token.split('.').count(), 3);
    assert!(!token.contains("a@x.com"));
    assert_eq!(claims.encode(&keys()), Some(token.clone()));
    assert_ne!(claims.encode(&Keys::new(b"another secret")), Some(token.clone()));
    assert_ne!(Claims { exp: 100, ..access_claims() }.encode(&keys()), Some(token.clone()));
    assert_ne!(
        Claims { claims_type: ClaimsType::RefreshToken, ..claims }.encode(&keys()),
        Some(token)
    );
}

#[test]
fn bearer_token_gives_back_its_claims() {
    let claims = Claims { exp: (now() + 600) as u64, ..access_claims() };
    let token = claims.encode(&keys()).unwrap();
    assert_eq!(Claims::from_bearer(Some(&token), &keys()), Ok(claims));
}

#[test]
fn missing_and_wrong_credentials_are_told_apart() {
    assert_eq!(Claims::from_bearer(None, &keys()), Err(AuthError::MissingCredentials));
    assert_eq!(Claims::from_bearer(Some(""), &keys()), Err(AuthError::WrongCredentials));
    assert_eq!(Claims::from_bearer(Some("a.b.c"), &keys()), Err(AuthError::WrongCredentials));
    let claims = Claims { exp: (now() + 600) as u64, ..access_claims() };
    let token = claims.encode(&keys()).unwrap();
    assert_eq!(
        Claims::from_bearer(Some(&token), &Keys::new(b"another secret")),
        Err(AuthError::WrongCredentials)
    );
    let mut forged = token.clone();
    forged.pop();
    assert_eq!(Claims::from_bearer(Some(&forged), &keys()), Err(AuthError::WrongCredentials));
    let expired = Claims { exp: (now() - 600) as u64, ..access_claims() };
    let token = expired.encode(&keys()).unwrap();
    assert_eq!(Claims::from_bearer(Some(&token), &keys()), Err(AuthError::WrongCredentials));
}

#[test]
fn opened_token_without_our_claims_is_a_wrong_credential() {
    assert_eq!(Claims::from_opened(None), Err(AuthError::WrongCredentials));
    assert_eq!(
        Claims::from_opened(Some(serde_json::Map::new())),
        Err(AuthError::WrongCredentials)
    );
    let claims = Claims { exp: 5, ..access_claims() };
    assert_eq!(Claims::from_opened(Some(claims.to_members())), Ok(claims));
}

#[test]
fn token_pair_is_a_bearer_pair() {
    let body = AuthBody::new("a".to_string(), "r".to_string());
    assert_eq!(
        body,
        AuthBody {
            access_token: "a".to_string(),
            refresh_token: "r".to_string(),
            token_type: "Bearer".to_string()
        }
    );
    assert_eq!(AuthBody::from_attempts(Some("a".into()), Some("r".into())), Ok(body));
    assert_eq!(AuthBody::from_attempts(None, Some("r".into())), Err(AuthError::TokenCreation));
    assert_eq!(AuthBody::from_attempts(Some("a".into()), None), Err(AuthError::TokenCreation));
    assert_eq!(AuthBody::from_attempts(None, None), Err(AuthError::TokenCreation));
}

#[test]
fn issued_pair_holds_an_access_and_a_refresh_token() {
    let t = now();
    let body = issue_token_pair(&user(), &keys(), t).unwrap();
    assert_eq!(body.token_type, "Bearer");
    let access = Claims::from_bearer(Some(&body.access_token), &keys()).unwrap();
    assert_eq!(access, Claims::issue(&user(), ClaimsType::AccessToken, t));
    assert_eq!(access.exp, t as u64 + 7_200);
    let refresh = Claims::from_bearer(Some(&body.refresh_token), &keys()).unwrap();
    assert_eq!(refresh, Claims::issue(&user(), ClaimsType::RefreshToken, t));
    assert_eq!(refresh.exp, t as u64 + 604_800);
    assert_eq!((refresh.sub.as_str(), refresh.id), ("a@x.com", 7));
}

#[test]
fn pair_issued_by_the_clock_is_valid_now() {
    let before = now();
    let body = gen_auth_body(user(), &keys()).unwrap();
    let access = Claims::from_bearer(Some(&body.access_token), &keys()).unwrap();
    assert_eq!(access.claims_type, ClaimsType::AccessToken);
    assert!(access.exp >= before as u64 + 7_200);
    assert!(access.exp <= now() as u64 + 7_200);
    let refresh = Claims::from_bearer(Some(&body.refresh_token), &keys()).unwrap();
    assert_eq!(refresh.claims_type, ClaimsType::RefreshToken);
    assert!(refresh.exp >= before as u64 + 604_800);
}

#[test]
fn auth_errors_have_status_and_text() {
    assert_eq!(
        AuthError::WrongCredentials.into_response(),
        (StatusCode::Unauthorized, "Wrong credentials")
    );
    assert_eq!(
        AuthError::MissingCredentials.into_response(),
        (StatusCode::BadRequest, "Missing credentials")
    );
    assert_eq!(
        AuthError::TokenCreation.into_response(),
        (StatusCode::InternalServerError, "Token creation error")
    );
    // A token of the wrong kind is answered like a wrong credential.
    assert_eq!(
        AuthError::InvalidToken.into_response(),
        AuthError::WrongCredentials.into_response()
    );
    assert_eq!(
        AuthError::InvalidToken.into_response(),
        (StatusCode::Unauthorized, "Wrong credentials")
    );
}

fn new_user(email: &str, nickname: &str) -> NewUser {
    NewUser {
        email: email.to_string(),
        password: "secret".to_string(),
        nickname: nickname.to_string(),
    }
}

#[test]
fn registering_with_a_digest_creates_the_account() {
    let mut state = AppState::new(keys());
    let body = register_with(&mut state, new_user("a@x.com", "a"), Some("digest".to_string()))
        .unwrap()
        .data;
    let stored = state.conn.users.get(1).unwrap();
    assert_eq!(
        (stored.email.as_str(), stored.nickname.as_str(), stored.password.as_str()),
        ("a@x.com", "a", "digest")
    );
    let access = Claims::from_bearer(Some(&body.access_token), &state.keys).unwrap();
    assert_eq!(
        (access.sub.as_str(), access.id, access.claims_type),
        ("a@x.com", 1, ClaimsType::AccessToken)
    );
    let refresh = Claims::from_bearer(Some(&body.refresh_token), &state.keys).unwrap();
    assert_eq!(refresh.claims_type, ClaimsType::RefreshToken);
}

#[test]
fn registering_fails_as_token_creation() {
    let mut state = AppState::new(keys());
    assert_eq!(
        register_with(&mut state, new_user("a@x.com", "a"), None),
        Err(AuthError::TokenCreation)
    );
    assert_eq!(state.conn.users.len(), 0);
    assert_eq!(state.conn.users.next_id(), Some(1));
    register_with(&mut state, new_user("a@x.com", "a"), Some("d".to_string())).unwrap();
    assert_eq!(
        register_with(&mut state, new_user("a@x.com", "b"), Some("d".to_string())),
        Err(AuthError::TokenCreation)
    );
    assert_eq!(
        register_with(&mut state, new_user("b@x.com", "a"), Some("d".to_string())),
        Err(AuthError::TokenCreation)
    );
    assert_eq!(state.conn.users.len(), 1);
}

#[test]
fn register_then_login() {
    let mut state = AppState::new(keys());
    let first = register(&mut state, new_user("a@x.com", "a")).unwrap().data;
    assert_eq!(first.token_type, "Bearer");
    assert!(!first.access_token.is_empty() && !first.refresh_token.is_empty());
    let stored = state.conn.users.get(1).unwrap();
    assert_ne!(stored.password, "secret");
    assert!(stored.password.starts_with("$2"));
    let wrong = AuthPayload { email: "a@x.com".to_string(), password: "wrong".to_string() };
    assert_eq!(login(&state, wrong), Err(AuthError::WrongCredentials));
    let right = AuthPayload { email: "a@x.com".to_string(), password: "secret".to_string() };
    let fresh = login(&state, right).unwrap().data;
    let access = Claims::from_bearer(Some(&fresh.access_token), &state.keys).unwrap();
    assert_eq!(
        (access.sub.as_str(), access.id, access.claims_type),
        ("a@x.com", 1, ClaimsType::AccessToken)
    );
    let refresh = Claims::from_bearer(Some(&fresh.refresh_token), &state.keys).unwrap();
    assert_eq!(refresh.claims_type, ClaimsType::RefreshToken);
}

#[test]
fn login_needs_credentials_an_account_and_a_readable_digest() {
    let state = state_with_user("not a bcrypt digest");
    let payload = |email: &str, password: &str| AuthPayload {
        email: email.to_string(),
        password: password.to_string(),
    };
    assert_eq!(login_at(&state, payload("", "secret"), 5), Err(AuthError::MissingCredentials));
    assert_eq!(login_at(&state, payload("a@x.com", ""), 5), Err(AuthError::MissingCredentials));
    assert_eq!(login_at(&state, payload("", ""), 5), Err(AuthError::MissingCredentials));
    assert_eq!(login_at(&state, payload("b@x.com", "secret"), 5), Err(AuthError::WrongCredentials));
    assert_eq!(login_at(&state, payload("a@x.com", "secret"), 5), Err(AuthError::WrongCredentials));
}

#[test]
fn access_token_is_rejected_by_refresh() {
    let state = state_with_user("digest");
    let stored = state.conn.users.get(1).unwrap();
    let body = gen_auth_body(stored, &state.keys).unwrap();
    let access = Claims::from_bearer(Some(&body.access_token), &state.keys).unwrap();
    assert_eq!(refresh(access, &state), Err(AuthError::InvalidToken));
    let held = Claims::from_bearer(Some(&body.refresh_token), &state.keys).unwrap();
    let again = refresh(held.clone(), &state).unwrap().data;
    let access = Claims::from_bearer(Some(&again.access_token), &state.keys).unwrap();
    assert_eq!((access.id, access.claims_type), (1, ClaimsType::AccessToken));
    // A refresh token is no access token either.
    assert_eq!(
        profile(held, &state),
        Err((StatusCode::Unauthorized, "Wrong credentials".to_string()))
    );
}

#[test]
fn refresh_needs_the_user_to_exist() {
    let state = state_with_user("digest");
    let gone = Claims {
        sub: "gone@x.com".to_string(),
        exp: 0,
        id: 9,
        claims_type: ClaimsType::RefreshToken,
    };
    assert_eq!(refresh_at(gone, &state, 100), Err(AuthError::WrongCredentials));
    let held = Claims { claims_type: ClaimsType::RefreshToken, ..access_claims() };
    let body = refresh_at(held, &state, 100).unwrap().data;
    assert_eq!(Ok(body), issue_token_pair(&state.conn.users.get(1).unwrap(), &state.keys, 100));
}

#[test]
fn profile_shows_the_account_without_its_password() {
    let state = state_with_user("digest");
    let vo = profile(access_claims(), &state).unwrap().data;
    assert_eq!((vo.id, vo.email.as_str(), vo.nickname.as_str()), (1, "a@x.com", "a"));
    assert_eq!((vo.created_at, vo.updated_at), (5, 5));
    let stranger = Claims { sub: "b@x.com".to_string(), ..access_claims() };
    assert_eq!(
        profile(stranger, &state),
        Err((StatusCode::NotFound, "User not found".to_string()))
    );
}

#[test]
fn group_with_configs_cannot_be_deleted() {
    let mut state = AppState::new(keys());
    let by = access_claims();
    let group = create_group(&by, &mut state, NewGroup { name: "g1".to_string() }).unwrap().data;
    assert_eq!(group.id, 1);
    let form = NewConfig {
        group_id: 1,
        name: "c1".to_string(),
        values: Some(yoo_config::entity::Json::new("{\"a\":1}".to_string())),
    };
    let config = create_config(&by, &mut state, form).unwrap().data;
    assert_eq!((config.id, config.values.text.as_str()), (1, "{\"a\":1}"));
    assert_eq!(
        delete_group_by_id(&by, &mut state, 1),
        Err((StatusCode::BadRequest, "Group is not empty".to_string()))
    );
    assert_eq!(state.conn.groups.len(), 1);
    assert!(delete_config_by_id(&by, &mut state, 1).is_ok());
    assert_eq!(state.conn.configs.len(), 0);
    assert!(delete_group_by_id(&by, &mut state, 1).is_ok());
    assert_eq!(state.conn.groups.len(), 0);
    assert_eq!(
        delete_group_by_id(&by, &mut state, 1),
        Err((StatusCode::NotFound, "Group not found".to_string()))
    );
    assert_eq!(
        delete_config_by_id(&by, &mut state, 1),
        Err((StatusCode::NotFound, "Config not found".to_string()))
    );
    assert_eq!(
        delete_template_by_id(&by, &mut state, 1),
        Err((StatusCode::NotFound, "Template not found".to_string()))
    );
}

#[test]
fn handlers_answer_in_envelopes() {
    let mut state = AppState::new(keys());
    let by = access_claims();
    create_group(&by, &mut state, NewGroup { name: "g1".to_string() }).unwrap();
    let found = get_group_by_id(&state, 1).unwrap();
    assert_eq!((found.code, found.msg.as_str()), (0, "ok"));
    assert_eq!(found.data.unwrap().name, "g1");
    assert_eq!(get_group_by_id(&state, 2).unwrap().data, None);
    assert_eq!(get_config_by_id(&state, 1).unwrap().data, None);
    assert_eq!(get_template_by_id(&state, 1).unwrap().data, None);
    let renamed =
        update_group_by_id(&by, &mut state, 1, UpdateGroup { name: "g2".to_string() }).unwrap();
    assert_eq!(renamed.data.name, "g2");
    let page = list_groups(&state, GroupFilter::default(), Pagination::default()).unwrap();
    assert_eq!((page.data.total, page.data.pages, page.code), (1, 1, 0));
    assert_eq!(page.data.content[0].name, "g2");
}

#[test]
fn handlers_report_failed_writes() {
    let mut state = AppState::new(keys());
    let by = access_claims();
    let internal = |text: &str| Some((StatusCode::InternalServerError, text.to_string()));
    create_group(&by, &mut state, NewGroup { name: "g1".to_string() }).unwrap();
    assert_eq!(
        create_group(&by, &mut state, NewGroup { name: "g1".to_string() }).err(),
        internal("Execution Error: unique constraint violated")
    );
    assert_eq!(
        update_group_by_id(&by, &mut state, 5, UpdateGroup { name: "x".to_string() }).err(),
        internal("Failed to update group by id")
    );
    let stray = NewConfig { group_id: 9, name: "c".to_string(), values: None };
    assert_eq!(
        create_config(&by, &mut state, stray).err(),
        internal("Execution Error: foreign key constraint violated")
    );
    assert_eq!(
        update_config_by_id(&by, &mut state, 5, UpdateConfig::default()).err(),
        internal("Failed to update config by id")
    );
    let template = |name: &str| NewTemplate {
        name: name.to_string(),
        brief: "b".to_string(),
        repo: "r".to_string(),
    };
    assert_eq!(create_template(&by, &mut state, template("t")).unwrap().data.id, 1);
    assert_eq!(
        create_template(&by, &mut state, template("t")).err(),
        internal("Failed to create template")
    );
    let none = UpdateTemplate { name: None, brief: None, kind: None, tags: None, repo: None };
    assert_eq!(
        update_template_by_id(&by, &mut state, 5, none).err(),
        internal(
            "Failed to update template: RecordNotFound Error: None of the database rows are affected"
        )
    );
    let tags = UpdateTemplate {
        tags: Some(vec!["x".to_string(), "x".to_string(), "y".to_string()]),
        name: None,
        brief: None,
        kind: None,
        repo: None,
    };
    assert_eq!(
        update_template_by_id(&by, &mut state, 1, tags).unwrap().data.tags.map(|t| t.len()),
        Some(3)
    );
    assert_eq!(get_template_tags(&state).unwrap().data, ["x", "y"]);
    assert!(delete_template_by_id(&by, &mut state, 1).is_ok());
}

#[test]
fn lists_refuse_page_zero_and_empty_pages() {
    let state = AppState::new(keys());
    let refused = || Some((StatusCode::BadRequest, "Invalid pagination".to_string()));
    let zero_page = || Pagination { page: 0, page_size: 10 };
    let zero_size = || Pagination { page: 1, page_size: 0 };
    assert_eq!(list_groups(&state, GroupFilter::default(), zero_page()).err(), refused());
    assert_eq!(list_groups(&state, GroupFilter::default(), zero_size()).err(), refused());
    assert_eq!(list_configs(&state, zero_page(), ConfigFilter::default()).err(), refused());
    assert_eq!(list_configs(&state, zero_size(), ConfigFilter::default()).err(), refused());
    let all = || TemplateFilter { name: None, kind: None, tag: None };
    assert_eq!(list_templates(&state, zero_page(), all()).err(), refused());
    assert_eq!(list_templates(&state, zero_size(), all()).err(), refused());
    let page = list_templates(&state, Pagination::default(), all()).unwrap();
    assert_eq!((page.data.content.len(), page.data.total, page.data.pages), (0, 0, 0));
    let page = list_configs(&state, Pagination::default(), ConfigFilter::default()).unwrap();
    assert_eq!((page.data.content.len(), page.data.total, page.data.pages), (0, 0, 0));
}

#[test]
fn only_an_access_token_may_write() {
    let mut state = AppState::new(keys());
    let held = Claims { claims_type: ClaimsType::RefreshToken, ..access_claims() };
    let refused = || Some((StatusCode::Unauthorized, "Wrong credentials".to_string()));
    assert_eq!(
        create_group(&held, &mut state, NewGroup { name: "g".to_string() }).err(),
        refused()
    );
    assert_eq!(state.conn.groups.len(), 0);
    create_group(&access_claims(), &mut state, NewGroup { name: "g".to_string() }).unwrap();
    assert_eq!(
        update_group_by_id(&held, &mut state, 1, UpdateGroup { name: "h".to_string() }).err(),
        refused()
    );
    assert_eq!(delete_group_by_id(&held, &mut state, 1).err(), refused());
    let form = NewConfig { group_id: 1, name: "c".to_string(), values: None };
    assert_eq!(create_config(&held, &mut state, form).err(), refused());
    assert_eq!(
        update_config_by_id(&held, &mut state, 1, UpdateConfig::default()).err(),
        refused()
    );
    assert_eq!(delete_config_by_id(&held, &mut state, 1).err(), refused());
    let template =
        NewTemplate { name: "t".to_string(), brief: "b".to_string(), repo: "r".to_string() };
    assert_eq!(create_template(&held, &mut state, template).err(), refused());
    let none = UpdateTemplate { name: None, brief: None, kind: None, tags: None, repo: None };
    assert_eq!(update_template_by_id(&held, &mut state, 1, none).err(), refused());
    assert_eq!(delete_template_by_id(&held, &mut state, 1).err(), refused());
    assert_eq!(get_group_by_id(&state, 1).unwrap().data.unwrap().name, "g");
}
