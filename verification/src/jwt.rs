use vstd::prelude::*;
use crate::clock::utc_now_seconds;
use crate::entity::{User, UserView};
use crate::resp::StatusCode;
use crate::token::{
    claim_members, claims_new, claims_put_signed, claims_put_text, claims_put_unsigned,
    claims_signed, claims_text, claims_unsigned, hs256_token, no_members, open_hs256,
    plain_members, sign_hs256, ClaimValue, ClaimsObject,
};

verus! {

/// Seconds for which an access token is valid: two hours.
pub const ACCESS_LIFETIME: i64 = 7200;

/// Seconds for which a refresh token is valid: seven days.
pub const REFRESH_LIFETIME: i64 = 604800;

/// The secret that signs and checks tokens. It is made once and handed to
/// whatever issues or checks a token.
#[derive(Clone, Debug, PartialEq, Eq)]
pub struct Keys {
    pub secret: Vec<u8>,
}

impl View for Keys {
    type V = Seq<u8>;

    open spec fn view(&self) -> Seq<u8> {
        self.secret@
    }
}

impl Keys {
    pub fn new(secret: &[u8]) -> (keys: Self)
        ensures
            keys@ == secret@,
    {
        let mut bytes: Vec<u8> = Vec::new();
        let mut i: usize = 0;
        while i < secret.len()
            invariant
                i <= secret@.len(),
                bytes@ == secret@.take(i as int),
            decreases secret@.len() - i,
        {
            bytes.push(secret[i]);
            assert(secret@.take(i + 1) =~= secret@.take(i as int).push(secret@[i as int]));
            i += 1;
        }
        assert(secret@.take(i as int) =~= secret@);
        Keys { secret: bytes }
    }
}

/// What a token is good for.
#[derive(Clone, Copy, Debug, PartialEq, Eq)]
pub enum ClaimsType {
    AccessToken,
    RefreshToken,
}

impl ClaimsType {
    /// The name that tokens carry for the kind.
    pub open spec fn name(self) -> Seq<char> {
        match self {
            ClaimsType::AccessToken => "access_token"@,
            ClaimsType::RefreshToken => "refresh_token"@,
        }
    }

    /// The kind that a name stands for.
    pub open spec fn named(name: Seq<char>) -> Option<ClaimsType> {
        if name == "access_token"@ {
            Some(ClaimsType::AccessToken)
        } else if name == "refresh_token"@ {
            Some(ClaimsType::RefreshToken)
        } else {
            None
        }
    }

    pub fn as_str(&self) -> (s: &'static str)
        ensures
            s@ == self.name(),
    {
        match self {
            ClaimsType::AccessToken => "access_token",
            ClaimsType::RefreshToken => "refresh_token",
        }
    }

    pub fn from_name(name: &String) -> (r: Option<ClaimsType>)
        ensures
            r == Self::named(name@),
    {
        if *name == "access_token".to_owned() {
            Some(ClaimsType::AccessToken)
        } else if *name == "refresh_token".to_owned() {
            Some(ClaimsType::RefreshToken)
        } else {
            None
        }
    }
}

/// The payload of a token: whom it is for, until when it holds and what it
/// is good for.
#[derive(Clone, Debug, PartialEq, Eq)]
pub struct Claims {
    /// The email address of the user.
    pub sub: String,
    /// The second, counted from the Unix epoch, at which the token expires.
    pub exp: u64,
    /// The key of the user.
    pub id: i32,
    pub claims_type: ClaimsType,
}

pub struct ClaimsView {
    pub sub: Seq<char>,
    pub exp: int,
    pub id: int,
    pub claims_type: ClaimsType,
}

impl View for Claims {
    type V = ClaimsView;

    open spec fn view(&self) -> ClaimsView {
        ClaimsView {
            sub: self.sub@,
            exp: self.exp as int,
            id: self.id as int,
            claims_type: self.claims_type,
        }
    }
}

/// `ttl` seconds after `now`, but never before the epoch.
pub open spec fn expiry(now: int, ttl: int) -> int {
    if now + ttl < 0 {
        0
    } else {
        now + ttl
    }
}

impl ClaimsView {
    /// The claims of a token of kind `kind`, issued to `user` at second `now`
    /// for `ttl` seconds.
    pub open spec fn issued(user: UserView, kind: ClaimsType, now: int, ttl: int) -> ClaimsView {
        ClaimsView { sub: user.email, exp: expiry(now, ttl), id: user.id, claims_type: kind }
    }

    /// The claims as members of a JSON object.
    pub open spec fn members(self) -> Map<Seq<char>, ClaimValue> {
        no_members().insert("sub"@, ClaimValue::Text(self.sub)).insert(
            "exp"@,
            ClaimValue::Number(self.exp),
        ).insert("id"@, ClaimValue::Number(self.id)).insert(
            "claims_type"@,
            ClaimValue::Text(self.claims_type.name()),
        )
    }

    /// The claims that the members of a JSON object spell out: all four must
    /// be there, each of its type and in its range. Other members are passed
    /// over.
    pub open spec fn of_members(members: Map<Seq<char>, ClaimValue>) -> Option<ClaimsView> {
        if members.contains_key("sub"@) && members.contains_key("exp"@) && members.contains_key(
            "id"@,
        ) && members.contains_key("claims_type"@) {
            match (members["sub"@], members["exp"@], members["id"@], members["claims_type"@]) {
                (
                    ClaimValue::Text(sub),
                    ClaimValue::Number(exp),
                    ClaimValue::Number(id),
                    ClaimValue::Text(kind),
                ) => if 0 <= exp <= u64::MAX && i32::MIN <= id <= i32::MAX && ClaimsType::named(
                    kind,
                ) is Some {
                    Some(
                        ClaimsView { sub, exp, id, claims_type: ClaimsType::named(kind).unwrap() },
                    )
                } else {
                    None
                },
                _ => None,
            }
        } else {
            None
        }
    }

    /// The token that carries the claims under `secret`, if one can be made.
    pub open spec fn token(self, secret: Seq<u8>) -> Option<Seq<char>> {
        hs256_token(self.members(), secret)
    }
}

/// The names of the four members differ from one another.
pub proof fn lemma_member_names_differ()
    ensures
        "sub"@ != "exp"@,
        "sub"@ != "id"@,
        "sub"@ != "claims_type"@,
        "exp"@ != "id"@,
        "exp"@ != "claims_type"@,
        "id"@ != "claims_type"@,
        "access_token"@ != "refresh_token"@,
{
    reveal_strlit("sub");
    reveal_strlit("exp");
    reveal_strlit("id");
    reveal_strlit("claims_type");
    reveal_strlit("access_token");
    reveal_strlit("refresh_token");
    assert("sub"@.len() == 3);
    assert("exp"@.len() == 3);
    assert("id"@.len() == 2);
    assert("claims_type"@.len() == 11);
    assert("sub"@[0] == 's');
    assert("exp"@[0] == 'e');
    assert("access_token"@.len() == 12);
    assert("refresh_token"@.len() == 13);
}

/// Reading back the members that claims are written as gives the claims.
pub proof fn lemma_members_round_trip(claims: ClaimsView)
    requires
        0 <= claims.exp <= u64::MAX,
        i32::MIN <= claims.id <= i32::MAX,
    ensures
        ClaimsView::of_members(claims.members()) == Some(claims),
{
    lemma_member_names_differ();
}

impl Claims {
    /// The second at which a token issued at `now` for `ttl` seconds expires.
    pub fn expires_at(now: i64, ttl: i64) -> (exp: u64)
        requires
            0 <= ttl <= REFRESH_LIFETIME,
        ensures
            exp == expiry(now as int, ttl as int),
    {
        match now.checked_add(ttl) {
            Some(t) => if t < 0 {
                0
            } else {
                t as u64
            },
            None => {
                let far: u64 = now as u64;
                far + ttl as u64
            },
        }
    }

    /// The claims of a token of kind `kind`, issued to `user` at second `now`.
    pub fn issue(user: &User, kind: ClaimsType, now: i64) -> (claims: Claims)
        ensures
            claims@ == ClaimsView::issued(
                user@,
                kind,
                now as int,
                match kind {
                    ClaimsType::AccessToken => ACCESS_LIFETIME as int,
                    ClaimsType::RefreshToken => REFRESH_LIFETIME as int,
                },
            ),
    {
        let ttl = match kind {
            ClaimsType::AccessToken => ACCESS_LIFETIME,
            ClaimsType::RefreshToken => REFRESH_LIFETIME,
        };
        Claims {
            sub: user.email.clone(),
            exp: Self::expires_at(now, ttl),
            id: user.id,
            claims_type: kind,
        }
    }

    /// The claims as a JSON object.
    pub fn to_members(&self) -> (object: ClaimsObject)
        ensures
            claim_members(object) == self@.members(),
            plain_members(claim_members(object)),
    {
        let mut object = claims_new();
        claims_put_text(&mut object, "sub", self.sub.as_str());
        claims_put_unsigned(&mut object, "exp", self.exp);
        claims_put_signed(&mut object, "id", self.id as i64);
        claims_put_text(&mut object, "claims_type", self.claims_type.as_str());
        object
    }

    /// The claims that a JSON object spells out.
    pub fn from_members(object: &ClaimsObject) -> (r: Option<Claims>)
        ensures
            match r {
                Some(claims) => ClaimsView::of_members(claim_members(*object)) == Some(claims@),
                None => ClaimsView::of_members(claim_members(*object)) is None,
            },
    {
        let sub = match claims_text(object, "sub") {
            Some(sub) => sub,
            None => {
                return None;
            },
        };
        let exp = match claims_unsigned(object, "exp") {
            Some(exp) => exp,
            None => {
                return None;
            },
        };
        let id = match claims_signed(object, "id") {
            Some(id) => id,
            None => {
                return None;
            },
        };
        let kind = match claims_text(object, "claims_type") {
            Some(kind) => kind,
            None => {
                return None;
            },
        };
        if id < i32::MIN as i64 || id > i32::MAX as i64 {
            return None;
        }
        match ClaimsType::from_name(&kind) {
            Some(claims_type) => Some(Claims { sub, exp, id: id as i32, claims_type }),
            None => None,
        }
    }

    /// The token that carries the claims under the secret of `keys`.
    pub fn encode(&self, keys: &Keys) -> (r: Option<String>)
        ensures
            match r {
                Some(t) => self@.token(keys@) == Some(t@),
                None => self@.token(keys@) is None,
            },
    {
        let object = self.to_members();
        sign_hs256(&object, keys.secret.as_slice())
    }

    /// What to make of a token that was checked and opened: a token that
    /// fails the check, or whose claims are not those of this library, is not
    /// a credential.
    pub fn from_opened(opened: Option<ClaimsObject>) -> (r: Result<Claims, AuthError>)
        ensures
            match opened {
                Some(object) => match ClaimsView::of_members(claim_members(object)) {
                    Some(claims) => r matches Ok(c) && c@ == claims,
                    None => r == Err::<Claims, AuthError>(AuthError::WrongCredentials),
                },
                None => r == Err::<Claims, AuthError>(AuthError::WrongCredentials),
            },
    {
        match opened {
            Some(object) => match Self::from_members(&object) {
                Some(claims) => Ok(claims),
                None => Err(AuthError::WrongCredentials),
            },
            None => Err(AuthError::WrongCredentials),
        }
    }

    /// The claims of the bearer token of a request. A request without a
    /// bearer token lacks credentials; a token that does not pass the check of
    /// signature and expiry, or does not carry claims, is a wrong credential.
    pub fn from_bearer(bearer: Option<&str>, keys: &Keys) -> (r: Result<Claims, AuthError>)
        ensures
            bearer is None ==> r == Err::<Claims, AuthError>(AuthError::MissingCredentials),
            bearer is Some ==> (r is Ok || r == Err::<Claims, AuthError>(
                AuthError::WrongCredentials,
            )),
    {
        match bearer {
            None => Err(AuthError::MissingCredentials),
            Some(token) => Self::from_opened(open_hs256(token, keys.secret.as_slice())),
        }
    }
}

/// A pair of tokens as it is handed to a client.
#[derive(Clone, Debug, PartialEq, Eq)]
pub struct AuthBody {
    pub access_token: String,
    pub refresh_token: String,
    pub token_type: String,
}

pub struct AuthBodyView {
    pub access_token: Seq<char>,
    pub refresh_token: Seq<char>,
    pub token_type: Seq<char>,
}

impl View for AuthBody {
    type V = AuthBodyView;

    open spec fn view(&self) -> AuthBodyView {
        AuthBodyView {
            access_token: self.access_token@,
            refresh_token: self.refresh_token@,
            token_type: self.token_type@,
        }
    }
}

impl AuthBodyView {
    /// The pair of the two tokens, of type `Bearer`.
    pub open spec fn of(access_token: Seq<char>, refresh_token: Seq<char>) -> AuthBodyView {
        AuthBodyView { access_token, refresh_token, token_type: "Bearer"@ }
    }

    /// What two attempts to make a token amount to: a pair where both gave a
    /// token, else a failure to create one.
    pub open spec fn of_attempts(access: Option<Seq<char>>, refresh: Option<Seq<char>>) -> Result<
        AuthBodyView,
        AuthError,
    > {
        match (access, refresh) {
            (Some(a), Some(r)) => Ok(Self::of(a, r)),
            _ => Err(AuthError::TokenCreation),
        }
    }

    /// The pair of tokens for `user`, issued at second `now` under `secret`.
    pub open spec fn issued(user: UserView, secret: Seq<u8>, now: int) -> Result<
        AuthBodyView,
        AuthError,
    > {
        Self::of_attempts(
            ClaimsView::issued(user, ClaimsType::AccessToken, now, ACCESS_LIFETIME as int).token(
                secret,
            ),
            ClaimsView::issued(user, ClaimsType::RefreshToken, now, REFRESH_LIFETIME as int).token(
                secret,
            ),
        )
    }
}

/// Whether an answer is what `expected` says.
pub open spec fn issued_as(expected: Result<AuthBodyView, AuthError>, r: Result<AuthBody, AuthError>)
    -> bool {
    match expected {
        Ok(body) => r matches Ok(b) && b@ == body,
        Err(e) => r == Err::<AuthBody, AuthError>(e),
    }
}

impl AuthBody {
    /// The pair of the two tokens, of type `Bearer`.
    pub fn new(access_token: String, refresh_token: String) -> (body: Self)
        ensures
            body@ == AuthBodyView::of(access_token@, refresh_token@),
    {
        Self { access_token, refresh_token, token_type: "Bearer".to_owned() }
    }

    /// The pair for two attempts to make a token.
    pub fn from_attempts(access: Option<String>, refresh: Option<String>) -> (r: Result<
        AuthBody,
        AuthError,
    >)
        ensures
            issued_as(
                AuthBodyView::of_attempts(
                    match access {
                        Some(a) => Some(a@),
                        None => None,
                    },
                    match refresh {
                        Some(t) => Some(t@),
                        None => None,
                    },
                ),
                r,
            ),
    {
        match access {
            Some(a) => match refresh {
                Some(t) => Ok(AuthBody::new(a, t)),
                None => Err(AuthError::TokenCreation),
            },
            None => Err(AuthError::TokenCreation),
        }
    }
}

/// The credentials of a login.
#[derive(Clone, Debug, PartialEq, Eq)]
pub struct AuthPayload {
    pub email: String,
    pub password: String,
}

/// Why a request was not authenticated.
#[derive(Clone, Copy, Debug, PartialEq, Eq)]
pub enum AuthError {
    /// The password does not fit, or the token does not pass its check.
    WrongCredentials,
    /// The request carries no credentials.
    MissingCredentials,
    /// A token could not be made.
    TokenCreation,
    /// The token is of the wrong kind. It is answered like
    /// `WrongCredentials`.
    InvalidToken,
}

impl AuthError {
    /// The status class of the error. A token of the wrong kind is answered
    /// like a wrong credential, so that the answer does not tell the reason.
    pub open spec fn status_of(self) -> StatusCode {
        match self {
            AuthError::WrongCredentials => StatusCode::Unauthorized,
            AuthError::MissingCredentials => StatusCode::BadRequest,
            AuthError::TokenCreation => StatusCode::InternalServerError,
            AuthError::InvalidToken => StatusCode::Unauthorized,
        }
    }

    /// The text of the error.
    pub open spec fn message_of(self) -> Seq<char> {
        match self {
            AuthError::WrongCredentials => "Wrong credentials"@,
            AuthError::MissingCredentials => "Missing credentials"@,
            AuthError::TokenCreation => "Token creation error"@,
            AuthError::InvalidToken => "Wrong credentials"@,
        }
    }

    /// Status and text with which the error is answered.
    pub fn into_response(self) -> (r: (StatusCode, &'static str))
        ensures
            r.0 == self.status_of(),
            r.1@ == self.message_of(),
    {
        match self {
            AuthError::WrongCredentials => (StatusCode::Unauthorized, "Wrong credentials"),
            AuthError::MissingCredentials => (StatusCode::BadRequest, "Missing credentials"),
            AuthError::TokenCreation => (StatusCode::InternalServerError, "Token creation error"),
            AuthError::InvalidToken => (StatusCode::Unauthorized, "Wrong credentials"),
        }
    }
}

/// The pair of tokens for `user`, issued at second `now`: an access token
/// that holds for two hours and a refresh token that holds for seven days,
/// both for the user's email address and key, both signed with the secret of
/// `keys`.
pub fn issue_token_pair(user: &User, keys: &Keys, now: i64) -> (r: Result<AuthBody, AuthError>)
    ensures
        issued_as(AuthBodyView::issued(user@, keys@, now as int), r),
{
    let access = Claims::issue(user, ClaimsType::AccessToken, now).encode(keys);
    let refresh = Claims::issue(user, ClaimsType::RefreshToken, now).encode(keys);
    AuthBody::from_attempts(access, refresh)
}

/// The pair of tokens for `user`, issued at the time of the clock.
pub fn gen_auth_body(user: User, keys: &Keys) -> (r: Result<AuthBody, AuthError>)
    ensures
        exists|now: int| #[trigger] issued_as(AuthBodyView::issued(user@, keys@, now), r),
{
    let now = utc_now_seconds();
    issue_token_pair(&user, keys, now)
}

} // verus!
