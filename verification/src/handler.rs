use vstd::prelude::*;
use vstd::string::*;
use crate::clock::utc_now_seconds;
use crate::entity::{Config, Group, Project, Template, TemplateView, User, UserView};
use crate::jwt::{
    issue_token_pair, issued_as, AuthBody, AuthBodyView, AuthError, AuthPayload, Claims,
    ClaimsType, Keys,
};
use crate::models::{
    ConfigFilter, GroupFilter, NewConfig, NewGroup, NewProject, NewTemplate, NewUser, Pagination,
    ProjectFilter, TemplateFilter, UpdateConfig, UpdateGroup, UpdateProject, UpdateTemplate,
};
use crate::mutation::{agrees, Mutation, Outcome};
use crate::password::{hash_password, password_check, verify_password};
use crate::query::{in_group, owner_of, project_vo, tag_in_use, Query};
use crate::resp::{PageResponse, Response, StatusCode};
use crate::store::{Database, DatabaseView, DbErr, DbErrView};
use crate::table::{found, listing, lookup, page_count, select, views, Row, RowFilter};
use crate::text::texts;
use crate::vo::{ProjectVo, UserVo, UserVoView};

verus! {

/// What every handler works on: the store and the signing secret.
pub struct AppState {
    pub conn: Database,
    pub keys: Keys,
}

impl AppState {
    pub open spec fn wf(&self) -> bool {
        self.conn.wf()
    }

    /// A state with an empty store.
    pub fn new(keys: Keys) -> (state: AppState)
        ensures
            state.wf(),
            state.keys == keys,
            state.conn@.users.rows.len() == 0 && state.conn@.users.last_id == 0,
            state.conn@.groups.rows.len() == 0 && state.conn@.groups.last_id == 0,
            state.conn@.configs.rows.len() == 0 && state.conn@.configs.last_id == 0,
            state.conn@.templates.rows.len() == 0 && state.conn@.templates.last_id == 0,
            state.conn@.projects.rows.len() == 0 && state.conn@.projects.last_id == 0,
    {
        AppState { conn: Database::new(), keys }
    }
}

/// A refusal: the status class and a message.
pub type Failure = (StatusCode, String);

/// Whether `r` is the refusal with this status and message.
pub open spec fn refused<T>(r: Result<T, Failure>, status: StatusCode, message: Seq<char>) -> bool {
    r matches Err(f) && f.0 == status && f.1@ == message
}

/// Whether `resp` is the success envelope.
pub open spec fn is_ok_envelope<T>(resp: Response<T>) -> bool {
    resp.code == 0 && resp.msg@ == "ok"@
}

/// Whether `r` answers a write as `outcome` says: the row on success, else an
/// internal error with `message`, or with the error's own text where
/// `message` is `None`.
pub open spec fn written<T: View>(
    outcome: Result<T::V, DbErrView>,
    message: Option<Seq<char>>,
    r: Result<Response<T>, Failure>,
) -> bool {
    match outcome {
        Ok(v) => r matches Ok(resp) && resp.data@ == v && is_ok_envelope(resp),
        Err(e) => refused(
            r,
            StatusCode::InternalServerError,
            match message {
                Some(m) => m,
                None => e.message(),
            },
        ),
    }
}

/// Whether `r` answers a delete that removed `n` rows: success for one row,
/// else not found with `message`.
pub open spec fn deleted(n: int, message: Seq<char>, r: Result<Response<()>, Failure>) -> bool {
    if n == 1 {
        r matches Ok(resp) && is_ok_envelope(resp)
    } else {
        refused(r, StatusCode::NotFound, message)
    }
}

/// Whether `r` is the page that `pagination` asks for of the rows that
/// satisfy `filter`, or the refusal of a page request that cannot be served.
pub open spec fn listed<R: Row, F: RowFilter<R>>(
    rows: Seq<R::V>,
    filter: F,
    pagination: Pagination,
    r: Result<PageResponse<R>, Failure>,
) -> bool {
    if pagination.valid() {
        r matches Ok(resp) && {
            &&& views(resp.data.content@) == listing::<R, F>(
                rows,
                filter,
                pagination.page as int,
                pagination.page_size as int,
            )
            &&& resp.data.total == select::<R, F>(rows, filter).len()
            &&& resp.data.pages == page_count(
                resp.data.total as int,
                pagination.page_size as int,
            )
            &&& resp.data.content@.len() <= pagination.page_size
            &&& forall|i: int|
                0 <= i < resp.data.content@.len() ==> filter.matches(
                    #[trigger] resp.data.content@[i]@,
                )
            &&& resp.code == 0
            &&& resp.msg@ == "ok"@
        }
    } else {
        refused(r, StatusCode::BadRequest, "Invalid pagination"@)
    }
}

/// The refusal of a token of the wrong kind: it reads like any other
/// authentication failure.
fn wrong_kind() -> (f: Failure)
    ensures
        f.0 == AuthError::InvalidToken.status_of(),
        f.1@ == AuthError::InvalidToken.message_of(),
{
    let (status, message) = AuthError::InvalidToken.into_response();
    (status, message.to_owned())
}

fn refusal(status: StatusCode, message: &str) -> (f: Failure)
    ensures
        f.0 == status,
        f.1@ == message@,
{
    (status, message.to_owned())
}

fn answer_write<T: View>(written_row: Result<T, DbErr>, message: Option<&str>) -> (r: Result<
    Response<T>,
    Failure,
>)
    ensures
        match written_row {
            Ok(row) => r matches Ok(resp) && resp.data@ == row@ && is_ok_envelope(resp),
            Err(e) => refused(
                r,
                StatusCode::InternalServerError,
                match message {
                    Some(m) => m@,
                    None => e@.message(),
                },
            ),
        },
{
    match written_row {
        Ok(row) => Ok(Response::new(row)),
        Err(e) => match message {
            Some(m) => Err(refusal(StatusCode::InternalServerError, m)),
            None => Err((StatusCode::InternalServerError, e.to_string())),
        },
    }
}

fn answer_delete(rows_affected: u64, message: &str) -> (r: Result<Response<()>, Failure>)
    ensures
        deleted(rows_affected as int, message@, r),
{
    if rows_affected == 1 {
        Ok(Response::new(()))
    } else {
        Err(refusal(StatusCode::NotFound, message))
    }
}

/// What a registration amounts to once the password was hashed: without a
/// digest nothing is written; with one the account is created at `stamp` and
/// a pair of tokens issued at second `now`. Every failure is reported as a
/// failure to create a token.
pub open spec fn registered(
    before: DatabaseView,
    keys: Seq<u8>,
    payload: NewUser,
    digest: Option<Seq<char>>,
    stamp: int,
    now: int,
    after: DatabaseView,
    r: Result<Response<AuthBody>, AuthError>,
) -> bool {
    match digest {
        None => after == before && r == Err::<Response<AuthBody>, AuthError>(
            AuthError::TokenCreation,
        ),
        Some(d) => {
            let outcome = before.create_user(payload.email@, d, payload.nickname@, stamp);
            &&& after == outcome.db
            &&& match outcome.result {
                Err(_) => r == Err::<Response<AuthBody>, AuthError>(AuthError::TokenCreation),
                Ok(user) => enveloped(AuthBodyView::issued(user, keys, now), r),
            }
        },
    }
}

/// Whether `r` wraps the pair that `expected` names, or is its error.
pub open spec fn enveloped(
    expected: Result<AuthBodyView, AuthError>,
    r: Result<Response<AuthBody>, AuthError>,
) -> bool {
    match expected {
        Ok(body) => r matches Ok(resp) && resp.data@ == body && is_ok_envelope(resp),
        Err(e) => r == Err::<Response<AuthBody>, AuthError>(e),
    }
}

fn envelope(issued: Result<AuthBody, AuthError>) -> (r: Result<Response<AuthBody>, AuthError>)
    ensures
        forall|expected: Result<AuthBodyView, AuthError>|
            issued_as(expected, issued) ==> #[trigger] enveloped(expected, r),
{
    match issued {
        Ok(body) => Ok(Response::new(body)),
        Err(e) => Err(e),
    }
}

/// Creates the account of `payload` with the given password digest and
/// issues its first pair of tokens.
pub fn register_with(state: &mut AppState, payload: NewUser, digest: Option<String>) -> (r: Result<
    Response<AuthBody>,
    AuthError,
>)
    requires
        old(state).wf(),
    ensures
        final(state).wf(),
        final(state).keys == old(state).keys,
        exists|stamp: int, now: int| #[trigger]
            registered(
                old(state).conn@,
                old(state).keys@,
                payload,
                found(digest),
                stamp,
                now,
                final(state).conn@,
                r,
            ),
{
    let ghost before = state.conn@;
    let ghost keys = state.keys@;
    match digest {
        None => {
            assert(registered(before, keys, payload, None, 0, 0, state.conn@, Err(
                AuthError::TokenCreation,
            )));
            Err(AuthError::TokenCreation)
        },
        Some(d) => {
            let ghost dv = d@;
            let created = Mutation::create_user(
                &mut state.conn,
                payload.email,
                d,
                payload.nickname,
            );
            let ghost stamp = choose|stamp: int| #[trigger]
                agrees(
                    before.create_user(payload.email@, dv, payload.nickname@, stamp),
                    state.conn@,
                    created,
                );
            match created {
                Err(_) => {
                    assert(registered(before, keys, payload, Some(dv), stamp, 0, state.conn@, Err(
                        AuthError::TokenCreation,
                    )));
                    Err(AuthError::TokenCreation)
                },
                Ok(user) => {
                    let now = utc_now_seconds();
                    let r = envelope(issue_token_pair(&user, &state.keys, now));
                    assert(enveloped(AuthBodyView::issued(user@, keys, now as int), r));
                    assert(registered(
                        before,
                        keys,
                        payload,
                        Some(dv),
                        stamp,
                        now as int,
                        state.conn@,
                        r,
                    ));
                    r
                },
            }
        },
    }
}

/// Whether `digest`, where there is one, is a digest that the password fits.
pub open spec fn fits(password: Seq<char>, digest: Option<Seq<char>>) -> bool {
    digest matches Some(d) ==> password_check(password, d) == Some(true)
}

/// Registers an account: hashes the password, creates the account with the
/// digest in place of the password and issues its first pair of tokens.
pub fn register(state: &mut AppState, payload: NewUser) -> (r: Result<
    Response<AuthBody>,
    AuthError,
>)
    requires
        old(state).wf(),
    ensures
        final(state).wf(),
        final(state).keys == old(state).keys,
        exists|digest: Option<Seq<char>>, stamp: int, now: int|
            fits(payload.password@, digest) && #[trigger] registered(
                old(state).conn@,
                old(state).keys@,
                payload,
                digest,
                stamp,
                now,
                final(state).conn@,
                r,
            ),
{
    let digest = hash_password(payload.password.as_str());
    let ghost d = found(digest);
    let r = register_with(state, payload, digest);
    proof {
        let (stamp, now) = choose|stamp: int, now: int| #[trigger]
            registered(
                old(state).conn@,
                old(state).keys@,
                payload,
                d,
                stamp,
                now,
                state.conn@,
                r,
            );
        assert(registered(
            old(state).conn@,
            old(state).keys@,
            payload,
            d,
            stamp,
            now,
            state.conn@,
            r,
        ));
    }
    r
}

/// The user with the given email address, if the store holds one.
pub open spec fn user_with_email(db: DatabaseView, email: Seq<char>) -> Option<UserView> {
    if exists|i: int| 0 <= i < db.users.rows.len() && (#[trigger] db.users.rows[i]).email == email {
        let i = choose|i: int|
            0 <= i < db.users.rows.len() && (#[trigger] db.users.rows[i]).email == email;
        Some(db.users.rows[i])
    } else {
        None
    }
}

/// What a login at second `now` amounts to: credentials must be there, the
/// account must exist and the password must fit its digest; then a pair of
/// tokens is issued. Whatever else goes wrong is a wrong credential.
pub open spec fn logged_in(
    db: DatabaseView,
    keys: Seq<u8>,
    payload: AuthPayload,
    now: int,
) -> Result<AuthBodyView, AuthError> {
    if payload.email@.len() == 0 || payload.password@.len() == 0 {
        Err(AuthError::MissingCredentials)
    } else {
        match user_with_email(db, payload.email@) {
            None => Err(AuthError::WrongCredentials),
            Some(user) => if password_check(payload.password@, user.password) == Some(true) {
                match AuthBodyView::issued(user, keys, now) {
                    Ok(body) => Ok(body),
                    Err(_) => Err(AuthError::WrongCredentials),
                }
            } else {
                Err(AuthError::WrongCredentials)
            },
        }
    }
}

/// Finds the user with the given email address.
fn user_by_email(db: &Database, email: &str) -> (r: Option<User>)
    requires
        db.wf(),
    ensures
        found(r) == user_with_email(db@, email@),
{
    let r = match Query::find_user_by_email(db, email) {
        Ok(row) => row,
        Err(_) => None,
    };
    proof {
        let rows = db@.users.rows;
        if r is Some {
            let u = r->Some_0@;
            let i = choose|i: int| 0 <= i < rows.len() && rows[i] == u;
            let j = choose|j: int| 0 <= j < rows.len() && (#[trigger] rows[j]).email == email@;
            if i < j {
                assert(User::unique_value_of(rows[i], 0) != User::unique_value_of(rows[j], 0));
            } else if j < i {
                assert(User::unique_value_of(rows[j], 0) != User::unique_value_of(rows[i], 0));
            }
        }
    }
    r
}

/// Logs in at second `now`.
pub fn login_at(state: &AppState, payload: AuthPayload, now: i64) -> (r: Result<
    Response<AuthBody>,
    AuthError,
>)
    requires
        state.wf(),
    ensures
        enveloped(logged_in(state.conn@, state.keys@, payload, now as int), r),
{
    if payload.email.as_str().is_empty() || payload.password.as_str().is_empty() {
        return Err(AuthError::MissingCredentials);
    }
    match user_by_email(&state.conn, payload.email.as_str()) {
        None => Err(AuthError::WrongCredentials),
        Some(user) => {
            let fits = verify_password(payload.password.as_str(), user.password.as_str());
            match fits {
                Some(true) => match issue_token_pair(&user, &state.keys, now) {
                    Ok(body) => Ok(Response::new(body)),
                    Err(_) => Err(AuthError::WrongCredentials),
                },
                _ => Err(AuthError::WrongCredentials),
            }
        },
    }
}

/// Logs in at the time of the clock.
pub fn login(state: &AppState, payload: AuthPayload) -> (r: Result<Response<AuthBody>, AuthError>)
    requires
        state.wf(),
    ensures
        exists|now: int| #[trigger]
            enveloped(logged_in(state.conn@, state.keys@, payload, now), r),
{
    let now = utc_now_seconds();
    login_at(state, payload, now)
}

/// The account behind an access token, without its password digest. Any
/// other kind of token is refused as an authentication failure.
pub fn profile(claims: Claims, state: &AppState) -> (r: Result<Response<UserVo>, Failure>)
    requires
        state.wf(),
    ensures
        match claims.claims_type {
            ClaimsType::AccessToken => match user_with_email(state.conn@, claims.sub@) {
                Some(user) => r matches Ok(resp) && resp.data@ == UserVoView::of(user)
                    && is_ok_envelope(resp),
                None => refused(r, StatusCode::NotFound, "User not found"@),
            },
            ClaimsType::RefreshToken => refused(
                r,
                AuthError::InvalidToken.status_of(),
                AuthError::InvalidToken.message_of(),
            ),
        },
{
    match claims.claims_type {
        ClaimsType::AccessToken => match user_by_email(&state.conn, claims.sub.as_str()) {
            Some(user) => Ok(Response::new(UserVo::from(user))),
            None => Err(refusal(StatusCode::NotFound, "User not found")),
        },
        ClaimsType::RefreshToken => Err(wrong_kind()),
    }
}

/// What a refresh at second `now` amounts to: only a refresh token is
/// taken, its user must still exist, and then a new pair is issued.
pub open spec fn refreshed(db: DatabaseView, keys: Seq<u8>, claims: Claims, now: int) -> Result<
    AuthBodyView,
    AuthError,
> {
    match claims.claims_type {
        ClaimsType::RefreshToken => match user_with_email(db, claims.sub@) {
            Some(user) => AuthBodyView::issued(user, keys, now),
            None => Err(AuthError::WrongCredentials),
        },
        ClaimsType::AccessToken => Err(AuthError::InvalidToken),
    }
}

/// Issues a new pair of tokens for a refresh token, at second `now`.
pub fn refresh_at(claims: Claims, state: &AppState, now: i64) -> (r: Result<
    Response<AuthBody>,
    AuthError,
>)
    requires
        state.wf(),
    ensures
        enveloped(refreshed(state.conn@, state.keys@, claims, now as int), r),
{
    match claims.claims_type {
        ClaimsType::RefreshToken => match user_by_email(&state.conn, claims.sub.as_str()) {
            Some(user) => envelope(issue_token_pair(&user, &state.keys, now)),
            None => Err(AuthError::WrongCredentials),
        },
        ClaimsType::AccessToken => Err(AuthError::InvalidToken),
    }
}

/// Issues a new pair of tokens for a refresh token, at the time of the
/// clock.
pub fn refresh(claims: Claims, state: &AppState) -> (r: Result<Response<AuthBody>, AuthError>)
    requires
        state.wf(),
    ensures
        exists|now: int| #[trigger]
            enveloped(refreshed(state.conn@, state.keys@, claims, now), r),
{
    let now = utc_now_seconds();
    refresh_at(claims, state, now)
}

/// Whether the claims authorize a write: only an access token does.
pub open spec fn may_write(claims: Claims) -> bool {
    claims.claims_type is AccessToken
}

/// Refuses the claims of anything but an access token, as an
/// authentication failure.
fn authorize(claims: &Claims) -> (r: Result<(), Failure>)
    ensures
        may_write(*claims) ==> r is Ok,
        !may_write(*claims) ==> refused(
            r,
            AuthError::InvalidToken.status_of(),
            AuthError::InvalidToken.message_of(),
        ),
{
    match claims.claims_type {
        ClaimsType::AccessToken => Ok(()),
        ClaimsType::RefreshToken => Err(wrong_kind()),
    }
}

/// Whether a write left the store and answered as `outcome` says.
pub open spec fn wrote<T: View>(
    outcome: Outcome<T::V>,
    message: Option<Seq<char>>,
    after: DatabaseView,
    r: Result<Response<T>, Failure>,
) -> bool {
    after == outcome.db && written(outcome.result, message, r)
}

/// Creates a group. Needs a caller with an access token.
pub fn create_group(claims: &Claims, state: &mut AppState, payload: NewGroup) -> (r: Result<
    Response<Group>,
    Failure,
>)
    requires
        old(state).wf(),
    ensures
        final(state).wf(),
        final(state).keys == old(state).keys,
        may_write(*claims) ==> (
            exists|now: int| #[trigger]
                wrote(old(state).conn@.create_group(payload, now), None, final(state).conn@, r)
        ),
        !may_write(*claims) ==> final(state).conn@ == old(state).conn@ && refused(
            r,
            AuthError::InvalidToken.status_of(),
            AuthError::InvalidToken.message_of(),
        ),
{
    match authorize(claims) {
        Err(f) => {
            return Err(f);
        },
        Ok(_) => {},
    }
    let ghost before = state.conn@;
    let done = Mutation::create_group(&mut state.conn, payload);
    let ghost now = choose|now: int| #[trigger]
        agrees(before.create_group(payload, now), state.conn@, done);
    let r = answer_write(done, None);
    assert(wrote(before.create_group(payload, now), None, state.conn@, r));
    r
}

/// The group with key `id`; the answer holds nothing where there is none.
pub fn get_group_by_id(state: &AppState, id: i32) -> (r: Result<Response<Option<Group>>, Failure>)
    requires
        state.wf(),
    ensures
        r matches Ok(resp) && found(resp.data) == lookup::<Group>(
            state.conn@.groups.rows,
            id as int,
        ) && is_ok_envelope(resp),
{
    match Query::get_group_by_id(&state.conn, id) {
        Ok(row) => Ok(Response::new(row)),
        Err(e) => Err((StatusCode::InternalServerError, e.to_string())),
    }
}

/// One page of the groups that satisfy `filter`. A page request with page 0
/// or page size 0 is refused.
pub fn list_groups(state: &AppState, filter: GroupFilter, pagination: Pagination) -> (r: Result<
    PageResponse<Group>,
    Failure,
>)
    requires
        state.wf(),
    ensures
        listed::<Group, GroupFilter>(state.conn@.groups.rows, filter, pagination, r),
{
    if !pagination.is_valid() {
        return Err(refusal(StatusCode::BadRequest, "Invalid pagination"));
    }
    match Query::list_groups(&state.conn, pagination.page, pagination.page_size, filter) {
        Ok(res) => Ok(PageResponse::new(res.0, res.1, res.2)),
        Err(_) => Err(refusal(StatusCode::InternalServerError, "Failed to list groups")),
    }
}

/// Renames a group. Needs a caller with an access token.
pub fn update_group_by_id(
    claims: &Claims,
    state: &mut AppState,
    id: i32,
    payload: UpdateGroup,
) -> (r: Result<Response<Group>, Failure>)
    requires
        old(state).wf(),
    ensures
        final(state).wf(),
        final(state).keys == old(state).keys,
        may_write(*claims) ==> (
            exists|now: int| #[trigger]
                wrote(
                    old(state).conn@.update_group(id as int, payload, now),
                    Some("Failed to update group by id"@),
                    final(state).conn@,
                    r,
                )
        ),
        !may_write(*claims) ==> final(state).conn@ == old(state).conn@ && refused(
            r,
            AuthError::InvalidToken.status_of(),
            AuthError::InvalidToken.message_of(),
        ),
{
    match authorize(claims) {
        Err(f) => {
            return Err(f);
        },
        Ok(_) => {},
    }
    let ghost before = state.conn@;
    let done = Mutation::update_group_by_id(&mut state.conn, id, payload);
    let ghost now = choose|now: int| #[trigger]
        agrees(before.update_group(id as int, payload, now), state.conn@, done);
    let r = answer_write(done, Some("Failed to update group by id"));
    assert(wrote(
        before.update_group(id as int, payload, now),
        Some("Failed to update group by id"@),
        state.conn@,
        r,
    ));
    r
}

/// Deletes a group, unless configs still belong to it. Needs a
/// caller with an access token.
pub fn delete_group_by_id(claims: &Claims, state: &mut AppState, id: i32) -> (r: Result<
    Response<()>,
    Failure,
>)
    requires
        old(state).wf(),
    ensures
        final(state).wf(),
        final(state).keys == old(state).keys,
        may_write(*claims) ==> (
            if select::<Config, ConfigFilter>(
                old(state).conn@.configs.rows,
                in_group(id),
            ).len() != 0 {
                final(state).conn@ == old(state).conn@ && refused(
                    r,
                    StatusCode::BadRequest,
                    "Group is not empty"@,
                )
            } else {
                final(state).conn@ == old(state).conn@.delete_group(id as int).db && deleted(
                    old(state).conn@.delete_group(id as int).result->Ok_0,
                    "Group not found"@,
                    r,
                )
            }
        ),
        !may_write(*claims) ==> final(state).conn@ == old(state).conn@ && refused(
            r,
            AuthError::InvalidToken.status_of(),
            AuthError::InvalidToken.message_of(),
        ),
{
    match authorize(claims) {
        Err(f) => {
            return Err(f);
        },
        Ok(_) => {},
    }
    let members = match Query::get_config_by_group_id(&state.conn, id) {
        Ok(n) => n,
        Err(_) => {
            return Err(refusal(StatusCode::InternalServerError, "Failed to delete group by id"));
        },
    };
    if members != 0 {
        return Err(refusal(StatusCode::BadRequest, "Group is not empty"));
    }
    match Mutation::delete_group_by_id(&mut state.conn, id) {
        Ok(res) => answer_delete(res.rows_affected, "Group not found"),
        Err(e) => Err((StatusCode::InternalServerError, e.to_string())),
    }
}

/// Creates a config. Needs a caller with an access token.
pub fn create_config(claims: &Claims, state: &mut AppState, payload: NewConfig) -> (r: Result<
    Response<Config>,
    Failure,
>)
    requires
        old(state).wf(),
    ensures
        final(state).wf(),
        final(state).keys == old(state).keys,
        may_write(*claims) ==> (
            exists|now: int| #[trigger]
                wrote(old(state).conn@.create_config(payload, now), None, final(state).conn@, r)
        ),
        !may_write(*claims) ==> final(state).conn@ == old(state).conn@ && refused(
            r,
            AuthError::InvalidToken.status_of(),
            AuthError::InvalidToken.message_of(),
        ),
{
    match authorize(claims) {
        Err(f) => {
            return Err(f);
        },
        Ok(_) => {},
    }
    let ghost before = state.conn@;
    let done = Mutation::create_config(&mut state.conn, payload);
    let ghost now = choose|now: int| #[trigger]
        agrees(before.create_config(payload, now), state.conn@, done);
    let r = answer_write(done, None);
    assert(wrote(before.create_config(payload, now), None, state.conn@, r));
    r
}

/// The config with key `id`; the answer holds nothing where there is none.
pub fn get_config_by_id(state: &AppState, id: i32) -> (r: Result<
    Response<Option<Config>>,
    Failure,
>)
    requires
        state.wf(),
    ensures
        r matches Ok(resp) && found(resp.data) == lookup::<Config>(
            state.conn@.configs.rows,
            id as int,
        ) && is_ok_envelope(resp),
{
    match Query::get_config_by_id(&state.conn, id) {
        Ok(row) => Ok(Response::new(row)),
        Err(e) => Err((StatusCode::InternalServerError, e.to_string())),
    }
}

/// Writes the fields of `payload` that are present into a config. Needs a
/// caller with an access token.
pub fn update_config_by_id(
    claims: &Claims,
    state: &mut AppState,
    id: i32,
    payload: UpdateConfig,
) -> (r: Result<Response<Config>, Failure>)
    requires
        old(state).wf(),
    ensures
        final(state).wf(),
        final(state).keys == old(state).keys,
        may_write(*claims) ==> (
            exists|now: int| #[trigger]
                wrote(
                    old(state).conn@.update_config(id as int, payload, now),
                    Some("Failed to update config by id"@),
                    final(state).conn@,
                    r,
                )
        ),
        !may_write(*claims) ==> final(state).conn@ == old(state).conn@ && refused(
            r,
            AuthError::InvalidToken.status_of(),
            AuthError::InvalidToken.message_of(),
        ),
{
    match authorize(claims) {
        Err(f) => {
            return Err(f);
        },
        Ok(_) => {},
    }
    let ghost before = state.conn@;
    let done = Mutation::update_config_by_id(&mut state.conn, id, payload);
    let ghost now = choose|now: int| #[trigger]
        agrees(before.update_config(id as int, payload, now), state.conn@, done);
    let r = answer_write(done, Some("Failed to update config by id"));
    assert(wrote(
        before.update_config(id as int, payload, now),
        Some("Failed to update config by id"@),
        state.conn@,
        r,
    ));
    r
}

/// Deletes a config. Needs a caller with an access token.
pub fn delete_config_by_id(claims: &Claims, state: &mut AppState, id: i32) -> (r: Result<
    Response<()>,
    Failure,
>)
    requires
        old(state).wf(),
    ensures
        final(state).wf(),
        final(state).keys == old(state).keys,
        may_write(*claims) ==> (
            final(state).conn@ == old(state).conn@.delete_config(id as int).db
        ),
        may_write(*claims) ==> (
            deleted(old(state).conn@.delete_config(id as int).result->Ok_0, "Config not found"@, r)
        ),
        !may_write(*claims) ==> final(state).conn@ == old(state).conn@ && refused(
            r,
            AuthError::InvalidToken.status_of(),
            AuthError::InvalidToken.message_of(),
        ),
{
    match authorize(claims) {
        Err(f) => {
            return Err(f);
        },
        Ok(_) => {},
    }
    match Mutation::delete_config_by_id(&mut state.conn, id) {
        Ok(res) => answer_delete(res.rows_affected, "Config not found"),
        Err(e) => Err((StatusCode::InternalServerError, e.to_string())),
    }
}

/// One page of the configs that satisfy `filter`. A page request with page
/// 0 or page size 0 is refused.
pub fn list_configs(state: &AppState, pagination: Pagination, filter: ConfigFilter) -> (r: Result<
    PageResponse<Config>,
    Failure,
>)
    requires
        state.wf(),
    ensures
        listed::<Config, ConfigFilter>(state.conn@.configs.rows, filter, pagination, r),
{
    if !pagination.is_valid() {
        return Err(refusal(StatusCode::BadRequest, "Invalid pagination"));
    }
    match Query::list_configs(&state.conn, pagination.page, pagination.page_size, filter) {
        Ok(res) => Ok(PageResponse::new(res.0, res.1, res.2)),
        Err(_) => Err(refusal(StatusCode::InternalServerError, "Failed to list configs")),
    }
}

/// One page of the templates that satisfy `filter`. A page request with
/// page 0 or page size 0 is refused.
pub fn list_templates(state: &AppState, pagination: Pagination, filter: TemplateFilter) -> (r:
    Result<PageResponse<Template>, Failure>)
    requires
        state.wf(),
    ensures
        listed::<Template, TemplateFilter>(state.conn@.templates.rows, filter, pagination, r),
{
    if !pagination.is_valid() {
        return Err(refusal(StatusCode::BadRequest, "Invalid pagination"));
    }
    match Query::list_templates(&state.conn, pagination.page, pagination.page_size, filter) {
        Ok(res) => Ok(PageResponse::new(res.0, res.1, res.2)),
        Err(_) => Err(refusal(StatusCode::InternalServerError, "Failed to list templates")),
    }
}

/// Creates a template. Needs a caller with an access token.
pub fn create_template(claims: &Claims, state: &mut AppState, payload: NewTemplate) -> (r:
    Result<Response<Template>, Failure>)
    requires
        old(state).wf(),
    ensures
        final(state).wf(),
        final(state).keys == old(state).keys,
        may_write(*claims) ==> (
            exists|now: int| #[trigger]
                wrote(
                    old(state).conn@.create_template(payload, now),
                    Some("Failed to create template"@),
                    final(state).conn@,
                    r,
                )
        ),
        !may_write(*claims) ==> final(state).conn@ == old(state).conn@ && refused(
            r,
            AuthError::InvalidToken.status_of(),
            AuthError::InvalidToken.message_of(),
        ),
{
    match authorize(claims) {
        Err(f) => {
            return Err(f);
        },
        Ok(_) => {},
    }
    let ghost before = state.conn@;
    let done = Mutation::create_template(&mut state.conn, payload);
    let ghost now = choose|now: int| #[trigger]
        agrees(before.create_template(payload, now), state.conn@, done);
    let r = answer_write(done, Some("Failed to create template"));
    assert(wrote(
        before.create_template(payload, now),
        Some("Failed to create template"@),
        state.conn@,
        r,
    ));
    r
}

/// The template with key `id`; the answer holds nothing where there is
/// none.
pub fn get_template_by_id(state: &AppState, id: i32) -> (r: Result<
    Response<Option<Template>>,
    Failure,
>)
    requires
        state.wf(),
    ensures
        r matches Ok(resp) && found(resp.data) == lookup::<Template>(
            state.conn@.templates.rows,
            id as int,
        ) && is_ok_envelope(resp),
{
    match Query::get_template_by_id(&state.conn, id) {
        Ok(row) => Ok(Response::new(row)),
        Err(_) => Err(refusal(StatusCode::InternalServerError, "Failed to get template by id")),
    }
}

/// The text that answers a failed update of a template.
pub open spec fn template_update_failure(e: DbErrView) -> Seq<char> {
    "Failed to update template: "@ + e.message()
}

/// Whether `r` answers an update of a template as `outcome` says.
pub open spec fn template_updated(
    outcome: Outcome<TemplateView>,
    after: DatabaseView,
    r: Result<Response<Template>, Failure>,
) -> bool {
    &&& after == outcome.db
    &&& match outcome.result {
        Ok(v) => r matches Ok(resp) && resp.data@ == v && is_ok_envelope(resp),
        Err(e) => refused(r, StatusCode::InternalServerError, template_update_failure(e)),
    }
}

/// Writes the fields of `payload` that are present into a template. Needs
/// a caller with an access token.
pub fn update_template_by_id(
    claims: &Claims,
    state: &mut AppState,
    id: i32,
    payload: UpdateTemplate,
) -> (r: Result<Response<Template>, Failure>)
    requires
        old(state).wf(),
    ensures
        final(state).wf(),
        final(state).keys == old(state).keys,
        may_write(*claims) ==> (
            exists|now: int| #[trigger]
                template_updated(
                    old(state).conn@.update_template(id as int, payload, now),
                    final(state).conn@,
                    r,
                )
        ),
        !may_write(*claims) ==> final(state).conn@ == old(state).conn@ && refused(
            r,
            AuthError::InvalidToken.status_of(),
            AuthError::InvalidToken.message_of(),
        ),
{
    match authorize(claims) {
        Err(f) => {
            return Err(f);
        },
        Ok(_) => {},
    }
    let ghost before = state.conn@;
    let done = Mutation::update_template_by_id(&mut state.conn, id, payload);
    let ghost now = choose|now: int| #[trigger]
        agrees(before.update_template(id as int, payload, now), state.conn@, done);
    let r = match done {
        Ok(row) => Ok(Response::new(row)),
        Err(e) => {
            let text = "Failed to update template: ".to_owned().concat(e.to_string().as_str());
            Err((StatusCode::InternalServerError, text))
        },
    };
    assert(template_updated(before.update_template(id as int, payload, now), state.conn@, r));
    r
}

/// Deletes a template. Needs a caller with an access token.
pub fn delete_template_by_id(claims: &Claims, state: &mut AppState, id: i32) -> (r: Result<
    Response<()>,
    Failure,
>)
    requires
        old(state).wf(),
    ensures
        final(state).wf(),
        final(state).keys == old(state).keys,
        may_write(*claims) ==> (
            final(state).conn@ == old(state).conn@.delete_template(id as int).db
        ),
        may_write(*claims) ==> (
            deleted(
                old(state).conn@.delete_template(id as int).result->Ok_0,
                "Template not found"@,
                r,
            )
        ),
        !may_write(*claims) ==> final(state).conn@ == old(state).conn@ && refused(
            r,
            AuthError::InvalidToken.status_of(),
            AuthError::InvalidToken.message_of(),
        ),
{
    match authorize(claims) {
        Err(f) => {
            return Err(f);
        },
        Ok(_) => {},
    }
    match Mutation::delete_template_by_id(&mut state.conn, id) {
        Ok(res) => answer_delete(res.rows_affected, "Template not found"),
        Err(_) => Err(refusal(StatusCode::InternalServerError, "Failed to delete template")),
    }
}

/// The tags that templates carry, each once.
pub fn get_template_tags(state: &AppState) -> (r: Result<Response<Vec<String>>, Failure>)
    ensures
        r matches Ok(resp) && is_ok_envelope(resp) && {
            &&& forall|t: Seq<char>| #[trigger]
                texts(resp.data@).contains(t) <==> tag_in_use(state.conn@.templates.rows, t)
            &&& forall|i: int, j: int|
                0 <= i < j < resp.data@.len() ==> #[trigger] resp.data@[i]@
                    != #[trigger] resp.data@[j]@
        },
{
    match Query::get_template_tags(&state.conn) {
        Ok(tags) => Ok(Response::new(tags)),
        Err(_) => Err(refusal(StatusCode::InternalServerError, "Failed to get template tags")),
    }
}

/// Creates a project owned by the caller. Needs a caller with an access token.
pub fn create_project(claims: &Claims, state: &mut AppState, payload: NewProject) -> (r: Result<
    Response<ProjectVo>,
    Failure,
>)
    requires
        old(state).wf(),
    ensures
        final(state).wf(),
        final(state).keys == old(state).keys,
        may_write(*claims) ==> (
            exists|now: int| #[trigger]
                wrote(
                    old(state).conn@.create_project(payload, claims.id as int, now),
                    None,
                    final(state).conn@,
                    r,
                )
        ),
        !may_write(*claims) ==> final(state).conn@ == old(state).conn@ && refused(
            r,
            AuthError::InvalidToken.status_of(),
            AuthError::InvalidToken.message_of(),
        ),
{
    match authorize(claims) {
        Err(f) => {
            return Err(f);
        },
        Ok(_) => {},
    }
    let ghost before = state.conn@;
    let done = Mutation::create_project(&mut state.conn, payload, claims.id);
    let ghost now = choose|now: int| #[trigger]
        agrees(before.create_project(payload, claims.id as int, now), state.conn@, done);
    let r = answer_write(done, None);
    assert(wrote(before.create_project(payload, claims.id as int, now), None, state.conn@, r));
    r
}

/// The project with key `id` and the nickname of its owner. A missing
/// project is not found; a project whose owner is missing is an internal
/// error.
pub fn get_project_by_id(state: &AppState, id: i32) -> (r: Result<Response<ProjectVo>, Failure>)
    requires
        state.wf(),
    ensures
        match lookup::<Project>(state.conn@.projects.rows, id as int) {
            Some(p) => if owner_of(state.conn@, p) is Some {
                r matches Ok(resp) && resp.data@ == project_vo(state.conn@, p) && is_ok_envelope(
                    resp,
                )
            } else {
                refused(r, StatusCode::InternalServerError, "Failed to find user"@)
            },
            None => refused(r, StatusCode::NotFound, "Project not found"@),
        },
{
    match Query::get_project_by_id(&state.conn, id) {
        Ok(Some(vo)) => Ok(Response::new(vo)),
        Ok(None) => Err(refusal(StatusCode::NotFound, "Project not found")),
        Err(_) => Err(refusal(StatusCode::InternalServerError, "Failed to find user")),
    }
}

/// One page of the projects that satisfy `filter`, each with the nickname of
/// its owner. A page request with page 0 or page size 0 is refused; a project
/// on the page whose owner is missing is an internal error.
pub fn list_projects(state: &AppState, pagination: Pagination, filter: ProjectFilter) -> (r:
    Result<PageResponse<ProjectVo>, Failure>)
    requires
        state.wf(),
    ensures
        !pagination.valid() ==> refused(r, StatusCode::BadRequest, "Invalid pagination"@),
        pagination.valid() ==> ({
            let rows = listing::<Project, ProjectFilter>(
                state.conn@.projects.rows,
                filter,
                pagination.page as int,
                pagination.page_size as int,
            );
            if forall|i: int| 0 <= i < rows.len() ==> owner_of(state.conn@, #[trigger] rows[i])
                is Some {
                r matches Ok(resp) && {
                    &&& resp.data.content@.len() == rows.len()
                    &&& forall|i: int|
                        0 <= i < rows.len() ==> (#[trigger] resp.data.content@[i])@ == project_vo(
                            state.conn@,
                            rows[i],
                        )
                    &&& resp.data.total == select::<Project, ProjectFilter>(
                        state.conn@.projects.rows,
                        filter,
                    ).len()
                    &&& resp.data.pages == page_count(
                        resp.data.total as int,
                        pagination.page_size as int,
                    )
                    &&& resp.data.content@.len() <= pagination.page_size
                    &&& resp.code == 0
                    &&& resp.msg@ == "ok"@
                }
            } else {
                refused(r, StatusCode::InternalServerError, "Failed to list projects"@)
            }
        }),
{
    if !pagination.is_valid() {
        return Err(refusal(StatusCode::BadRequest, "Invalid pagination"));
    }
    match Query::list_projects(&state.conn, pagination.page, pagination.page_size, filter) {
        Ok(res) => Ok(PageResponse::new(res.0, res.1, res.2)),
        Err(_) => Err(refusal(StatusCode::InternalServerError, "Failed to list projects")),
    }
}

/// Writes the fields of `payload` that are present into a project. Needs a
/// caller with an access token.
pub fn update_project_by_id(
    claims: &Claims,
    state: &mut AppState,
    id: i32,
    payload: UpdateProject,
) -> (r: Result<Response<ProjectVo>, Failure>)
    requires
        old(state).wf(),
    ensures
        final(state).wf(),
        final(state).keys == old(state).keys,
        may_write(*claims) ==> (
            exists|now: int| #[trigger]
                wrote(
                    old(state).conn@.update_project(id as int, payload, now),
                    None,
                    final(state).conn@,
                    r,
                )
        ),
        !may_write(*claims) ==> final(state).conn@ == old(state).conn@ && refused(
            r,
            AuthError::InvalidToken.status_of(),
            AuthError::InvalidToken.message_of(),
        ),
{
    match authorize(claims) {
        Err(f) => {
            return Err(f);
        },
        Ok(_) => {},
    }
    let ghost before = state.conn@;
    let done = Mutation::update_project_by_id(&mut state.conn, id, payload);
    let ghost now = choose|now: int| #[trigger]
        agrees(before.update_project(id as int, payload, now), state.conn@, done);
    let r = answer_write(done, None);
    assert(wrote(before.update_project(id as int, payload, now), None, state.conn@, r));
    r
}

/// Deletes a project. Needs a caller with an access token.
pub fn delete_project_by_id(claims: &Claims, state: &mut AppState, id: i32) -> (r: Result<
    Response<()>,
    Failure,
>)
    requires
        old(state).wf(),
    ensures
        final(state).wf(),
        final(state).keys == old(state).keys,
        may_write(*claims) ==> (
            final(state).conn@ == old(state).conn@.delete_project(id as int).db
        ),
        may_write(*claims) ==> (
            deleted(old(state).conn@.delete_project(id as int).result->Ok_0, "Project not found"@, r)
        ),
        !may_write(*claims) ==> final(state).conn@ == old(state).conn@ && refused(
            r,
            AuthError::InvalidToken.status_of(),
            AuthError::InvalidToken.message_of(),
        ),
{
    match authorize(claims) {
        Err(f) => {
            return Err(f);
        },
        Ok(_) => {},
    }
    match Mutation::delete_project_by_id(&mut state.conn, id) {
        Ok(res) => answer_delete(res.rows_affected, "Project not found"),
        Err(e) => Err((StatusCode::InternalServerError, e.to_string())),
    }
}

/// Deletes every project named `name`; where there is none the answer is
/// not found. Needs a caller with an access token.
pub fn delete_project_by_name(claims: &Claims, state: &mut AppState, name: String) -> (r: Result<
    Response<()>,
    Failure,
>)
    requires
        old(state).wf(),
    ensures
        final(state).wf(),
        final(state).keys == old(state).keys,
        may_write(*claims) ==> (
            final(state).conn@ == old(state).conn@.delete_project_named(name).db
        ),
        may_write(*claims) ==> (
            if old(state).conn@.delete_project_named(name).result->Ok_0 == 0 {
                refused(r, StatusCode::NotFound, "Project not found"@)
            } else {
                r matches Ok(resp) && is_ok_envelope(resp)
            }
        ),
        !may_write(*claims) ==> final(state).conn@ == old(state).conn@ && refused(
            r,
            AuthError::InvalidToken.status_of(),
            AuthError::InvalidToken.message_of(),
        ),
{
    match authorize(claims) {
        Err(f) => {
            return Err(f);
        },
        Ok(_) => {},
    }
    match Mutation::delete_project_by_name(&mut state.conn, name) {
        Ok(res) => if res.rows_affected == 0 {
            Err(refusal(StatusCode::NotFound, "Project not found"))
        } else {
            Ok(Response::new(()))
        },
        Err(e) => Err((StatusCode::InternalServerError, e.to_string())),
    }
}

} // verus!
