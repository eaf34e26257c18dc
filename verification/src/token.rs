use vstd::prelude::*;

verus! {

/// `serde_json::Value`: any JSON value. Nothing is known of what one holds
/// but what the functions below say.
#[verifier::external_type_specification]
#[verifier::external_body]
pub struct ExJsonValue(serde_json::Value);

/// `serde_json::Map`: a JSON object. What one holds is named by
/// `claim_members`.
#[verifier::external_type_specification]
#[verifier::external_body]
#[verifier::reject_recursive_types(K)]
#[verifier::reject_recursive_types(V)]
pub struct ExJsonMap<K, V>(serde_json::Map<K, V>);

/// A JSON object, as tokens carry their claims.
pub type ClaimsObject = serde_json::Map<String, serde_json::Value>;

/// What a member of a claims object holds, as far as tokens are concerned.
pub enum ClaimValue {
    /// A JSON string.
    Text(Seq<char>),
    /// A JSON number that is an integer between `i64::MIN` and `u64::MAX`.
    Number(int),
    /// Anything else.
    Other,
}

/// The members of a JSON object, by name.
pub uninterp spec fn claim_members(claims: ClaimsObject) -> Map<Seq<char>, ClaimValue>;

/// A claims object without members.
pub open spec fn no_members() -> Map<Seq<char>, ClaimValue> {
    Map::empty()
}

/// The token that signs a claims object with a secret, or `None` where no
/// token can be made.
pub uninterp spec fn hs256_token(members: Map<Seq<char>, ClaimValue>, secret: Seq<u8>) -> Option<
    Seq<char>,
>;

/// `serde_json::Map::new`: an object without members.
#[verifier::external_body]
pub(crate) fn claims_new() -> (claims: ClaimsObject)
    ensures
        claim_members(claims) == no_members(),
{
    serde_json::Map::new()
}

/// `serde_json::Map::insert` of `Value::from` of a string: the member `name`
/// then holds that string, whatever it held before; other members stay.
#[verifier::external_body]
pub(crate) fn claims_put_text(
    claims: &mut ClaimsObject,
    name: &str,
    value: &str,
)
    ensures
        claim_members(*final(claims)) == claim_members(*old(claims)).insert(
            name@,
            ClaimValue::Text(value@),
        ),
{
    claims.insert(name.to_owned(), serde_json::Value::from(value));
}

/// `serde_json::Map::insert` of `Value::from` of an unsigned number: the
/// member `name` then holds that number; other members stay.
#[verifier::external_body]
pub(crate) fn claims_put_unsigned(
    claims: &mut ClaimsObject,
    name: &str,
    value: u64,
)
    ensures
        claim_members(*final(claims)) == claim_members(*old(claims)).insert(
            name@,
            ClaimValue::Number(value as int),
        ),
{
    claims.insert(name.to_owned(), serde_json::Value::from(value));
}

/// `serde_json::Map::insert` of `Value::from` of a signed number: the member
/// `name` then holds that number; other members stay.
#[verifier::external_body]
pub(crate) fn claims_put_signed(
    claims: &mut ClaimsObject,
    name: &str,
    value: i64,
)
    ensures
        claim_members(*final(claims)) == claim_members(*old(claims)).insert(
            name@,
            ClaimValue::Number(value as int),
        ),
{
    claims.insert(name.to_owned(), serde_json::Value::from(value));
}

/// `serde_json::Map::get` followed by `Value::as_str`: the string that the
/// member `name` holds, or `None` where there is no such member or it holds
/// no string.
#[verifier::external_body]
pub(crate) fn claims_text(claims: &ClaimsObject, name: &str) -> (r:
    Option<String>)
    ensures
        match r {
            Some(s) => claim_members(*claims).contains_key(name@) && claim_members(*claims)[name@]
                == ClaimValue::Text(s@),
            None => !(claim_members(*claims).contains_key(name@) && claim_members(
                *claims,
            )[name@] is Text),
        },
{
    claims.get(name).and_then(serde_json::Value::as_str).map(str::to_owned)
}

/// `serde_json::Map::get` followed by `Value::as_u64`: the number that the
/// member `name` holds where it is an integer from 0 to `u64::MAX`, else
/// `None`.
#[verifier::external_body]
pub(crate) fn claims_unsigned(claims: &ClaimsObject, name: &str)
    -> (r: Option<u64>)
    ensures
        match r {
            Some(n) => claim_members(*claims).contains_key(name@) && claim_members(*claims)[name@]
                == ClaimValue::Number(n as int),
            None => !(claim_members(*claims).contains_key(name@) && (claim_members(
                *claims,
            )[name@] matches ClaimValue::Number(n) && 0 <= n <= u64::MAX)),
        },
{
    claims.get(name).and_then(serde_json::Value::as_u64)
}

/// `serde_json::Map::get` followed by `Value::as_i64`: the number that the
/// member `name` holds where it is an integer from `i64::MIN` to `i64::MAX`,
/// else `None`.
#[verifier::external_body]
pub(crate) fn claims_signed(claims: &ClaimsObject, name: &str) -> (r:
    Option<i64>)
    ensures
        match r {
            Some(n) => claim_members(*claims).contains_key(name@) && claim_members(*claims)[name@]
                == ClaimValue::Number(n as int),
            None => !(claim_members(*claims).contains_key(name@) && (claim_members(
                *claims,
            )[name@] matches ClaimValue::Number(n) && i64::MIN <= n <= i64::MAX)),
        },
{
    claims.get(name).and_then(serde_json::Value::as_i64)
}

/// Whether every member of a claims object is a string or an integer, so
/// that the members say all there is to say of the object.
pub open spec fn plain_members(members: Map<Seq<char>, ClaimValue>) -> bool {
    forall|name: Seq<char>| members.contains_key(name) ==> !(#[trigger] members[name] is Other)
}

/// `jsonwebtoken::encode` with the default header (HS256) and a key made
/// from `secret`: for an object of strings and integers, the token depends on
/// the members of the object and on the secret alone. `None` stands for any
/// error of the encoder.
#[verifier::external_body]
pub(crate) fn sign_hs256(claims: &ClaimsObject, secret: &[u8]) -> (r: Option<String>)
    requires
        plain_members(claim_members(*claims)),
    ensures
        match r {
            Some(t) => hs256_token(claim_members(*claims), secret@) == Some(t@),
            None => hs256_token(claim_members(*claims), secret@) is None,
        },
{
    let key = jsonwebtoken::EncodingKey::from_secret(secret);
    jsonwebtoken::encode(&jsonwebtoken::Header::default(), claims, &key).ok()
}

/// `jsonwebtoken::decode` with the default validation (HS256, signature and
/// expiry checked against this machine's clock) and a key made from `secret`:
/// the claims object of the token, or `None` for any error of the decoder.
/// The outcome depends on the time of the call, so nothing is claimed of it.
#[verifier::external_body]
pub(crate) fn open_hs256(token: &str, secret: &[u8]) -> (r: Option<
    ClaimsObject,
>) {
    let key = jsonwebtoken::DecodingKey::from_secret(secret);
    let checks = jsonwebtoken::Validation::default();
    jsonwebtoken::decode::<ClaimsObject>(token, &key, &checks)
        .ok()
        .map(|data| data.claims)
}

} // verus!
