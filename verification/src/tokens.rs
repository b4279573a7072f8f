//! Signed session tokens: a user identifier and an expiry time, signed with
//! the server's secret (HMAC-SHA256). Nothing is stored; a token is valid
//! while its signature verifies and the time is before its expiry.

use vstd::prelude::*;
use crate::error::AuthError;
use crate::text::text_view;

verus! {

/// The claims that a signed token carries.
#[derive(Clone, Debug, PartialEq, Eq)]
pub struct Payload {
    /// The identifier of the user.
    pub sub: String,
    /// The first second, counted from the Unix epoch, at which the token is
    /// no longer valid.
    pub exp: usize,
}

/// The claims as contracts see them.
pub ghost struct PayloadView {
    pub sub: Seq<char>,
    pub exp: nat,
}

impl View for Payload {
    type V = PayloadView;

    open spec fn view(&self) -> PayloadView {
        PayloadView { sub: self.sub@, exp: self.exp as nat }
    }
}

/// What an optional payload is in contracts.
pub open spec fn payload_view(payload: Option<Payload>) -> Option<PayloadView> {
    match payload {
        Some(payload) => Some(payload@),
        None => None,
    }
}

/// The error type of the `jsonwebtoken` crate, carried through unread.
#[verifier::external_type_specification]
#[verifier::external_body]
pub struct ExJwtError(jsonwebtoken::errors::Error);

/// The token that `jsonwebtoken::encode` makes of the two claims under the
/// default header and the secret, or `None` where it returns an error.
pub uninterp spec fn jwt_encoding(claims: PayloadView, secret: Seq<char>) -> Option<Seq<char>>;

/// The claims that `jsonwebtoken::decode` reads from a token whose HS256
/// signature verifies under the secret, the expiry time not compared with
/// any clock; `None` where it returns an error or the token lacks a string
/// `sub` or an integer `exp`.
pub uninterp spec fn jwt_claims(token: Seq<char>, secret: Seq<char>) -> Option<PayloadView>;

/// Calls `jsonwebtoken::encode` with `Header::default()` (HS256), a JSON
/// object holding `sub` and `exp`, and the secret's bytes as the key.
/// Trusted: the result depends on the claims and the secret alone, and a
/// token that is returned decodes under the same secret to the same claims.
#[verifier::external_body]
fn jwt_encode(payload: &Payload, secret: &str) -> (r: Result<String, jsonwebtoken::errors::Error>)
    ensures
        match r {
            Ok(token) => jwt_encoding(payload@, secret@) == Some(token@) && jwt_claims(
                token@,
                secret@,
            ) == Some(payload@),
            Err(_) => jwt_encoding(payload@, secret@) is None,
        },
{
    let mut claims = serde_json::Map::new();
    claims.insert("sub".to_owned(), serde_json::Value::from(payload.sub.as_str()));
    claims.insert("exp".to_owned(), serde_json::Value::from(payload.exp));
    let key = jsonwebtoken::EncodingKey::from_secret(secret.as_bytes());
    jsonwebtoken::encode(&jsonwebtoken::Header::default(), &claims, &key)
}

/// Calls `jsonwebtoken::decode` for HS256 with the secret's bytes as the
/// key and the crate's own expiry check switched off, then moves `sub` and
/// `exp` out of the claims. Trusted: the result depends on the token and the
/// secret alone.
#[verifier::external_body]
fn jwt_decode(token: &str, secret: &str) -> (r: Option<Payload>)
    ensures
        payload_view(r) == jwt_claims(token@, secret@),
{
    let mut validation = jsonwebtoken::Validation::new(jsonwebtoken::Algorithm::HS256);
    validation.validate_exp = false;
    let key = jsonwebtoken::DecodingKey::from_secret(secret.as_bytes());
    let data = jsonwebtoken::decode::<serde_json::Value>(token, &key, &validation).ok()?;
    let sub = data.claims.get("sub")?.as_str()?.to_owned();
    let exp = usize::try_from(data.claims.get("exp")?.as_u64()?).ok()?;
    Some(Payload { sub, exp })
}

/// Calls `chrono::Utc::now` and takes its `timestamp`: the seconds since the
/// Unix epoch on the system clock. Nothing is claimed of the value.
#[verifier::external_body]
pub(crate) fn unix_time_now() -> i64 {
    chrono::Utc::now().timestamp()
}

/// The expiry time of a token issued at `now` for `duration` seconds, where
/// it can be written into a token.
pub open spec fn expiry(now: int, duration: int) -> Option<nat> {
    if 0 <= now + duration <= usize::MAX {
        Some((now + duration) as nat)
    } else {
        None
    }
}

/// The subject of the claims, while the time is before their expiry.
pub open spec fn current_subject(claims: Option<PayloadView>, now: int) -> Option<Seq<char>> {
    match claims {
        Some(claims) => if now < claims.exp {
            Some(claims.sub)
        } else {
            None
        },
        None => None,
    }
}

/// The user that a token stands for at the time `now`.
pub open spec fn token_subject(token: Seq<char>, secret: Seq<char>, now: int) -> Option<
    Seq<char>,
> {
    current_subject(jwt_claims(token, secret), now)
}

/// The token issued to a user at `now` for `duration` seconds.
pub open spec fn signed_token(id: Seq<char>, secret: Seq<char>, duration: int, now: int) -> Option<
    Seq<char>,
> {
    match expiry(now, duration) {
        Some(exp) => jwt_encoding(PayloadView { sub: id, exp }, secret),
        None => None,
    }
}

/// A token issued to the user at the time `now`: it is the encoding of the
/// user's identifier and of the expiry `now + duration`, and it stands for
/// the user at every time before that expiry and for nobody from then on.
pub open spec fn signed_at(
    secret: Seq<char>,
    duration: int,
    token: Seq<char>,
    user_id: Seq<char>,
    now: int,
) -> bool {
    &&& signed_token(user_id, secret, duration, now) == Some(token)
    &&& forall|at: int|
        #[trigger] token_subject(token, secret, at) == if at < now + duration {
            Some(user_id)
        } else {
            None
        }
}

/// A token issued to a user at the time `now` stands for that user at
/// every time before `now + duration`, and for nobody at that time or after
/// it. A token without verified claims stands for nobody at any time.
pub proof fn lemma_token_valid_until_expiry(
    token: Seq<char>,
    secret: Seq<char>,
    user_id: Seq<char>,
    duration: int,
    now: int,
    at: int,
)
    ensures
        signed_at(secret, duration, token, user_id, now) && at < now + duration ==> token_subject(
            token,
            secret,
            at,
        ) == Some(user_id),
        signed_at(secret, duration, token, user_id, now) && at >= now + duration ==> token_subject(
            token,
            secret,
            at,
        ) is None,
        jwt_claims(token, secret) is None ==> token_subject(token, secret, at) is None,
{
}

/// Computes `now + duration` as an expiry time; `None` where the sum is
/// negative or does not fit.
pub fn expiry_at(now: i64, duration: i64) -> (exp: Option<usize>)
    ensures
        match expiry(now as int, duration as int) {
            Some(at) => exp == Some(at as usize),
            None => exp is None,
        },
{
    let at: i128 = now as i128 + duration as i128;
    if 0 <= at && at <= usize::MAX as i128 {
        Some(at as usize)
    } else {
        None
    }
}

/// Issues a token for the user at the time `now`, valid for `duration`
/// seconds.
///
/// The token is the encoding of the user's identifier and of the expiry
/// `now + duration`; `Internal` where there is none. A token that is
/// returned stands for the user at every time before its expiry and for
/// nobody from then on.
pub fn create_token_at(id: String, secret: &str, duration: i64, now: i64) -> (r: Result<
    String,
    AuthError,
>)
    ensures
        match signed_token(id@, secret@, duration as int, now as int) {
            Some(token) => r matches Ok(issued) && issued@ == token,
            None => r == Err::<String, AuthError>(AuthError::Internal),
        },
        r matches Ok(issued) ==> signed_at(secret@, duration as int, issued@, id@, now as int),
{
    let exp = match expiry_at(now, duration) {
        Some(exp) => exp,
        None => {
            return Err(AuthError::Internal);
        },
    };
    let payload = Payload { sub: id, exp };
    match jwt_encode(&payload, secret) {
        Ok(token) => Ok(token),
        Err(_) => Err(AuthError::Internal),
    }
}

/// Issues a token for the user, valid for `duration` seconds from the
/// reading of the system clock.
///
/// Whatever the clock says, a token that is returned carries the user's
/// identifier, and was issued at some time `now` as `create_token_at` says.
pub fn create_token(id: String, secret: &str, duration: i64) -> (r: Result<String, AuthError>)
    ensures
        r matches Err(e) ==> e == AuthError::Internal,
        r matches Ok(issued) ==> exists|now: int|
            #[trigger] signed_at(secret@, duration as int, issued@, id@, now),
{
    let now = unix_time_now();
    let r = create_token_at(id, secret, duration, now);
    proof {
        if r is Ok {
            assert(signed_at(secret@, duration as int, r.unwrap()@, id@, now as int));
        }
    }
    r
}

/// Reads decoded claims at the time `now`: the subject while `now` is
/// before the expiry, nothing from the expiry on or without claims.
pub fn subject_if_current(claims: Option<Payload>, now: i64) -> (r: Option<String>)
    ensures
        text_view(r) == current_subject(payload_view(claims), now as int),
{
    match claims {
        Some(payload) => {
            if now < 0 || (now as u64) < (payload.exp as u64) {
                Some(payload.sub)
            } else {
                None
            }
        },
        None => None,
    }
}

/// The user that the token stands for at the time `now`: its signature
/// verifies under the secret and `now` is before its expiry.
pub fn verify_token_at(token: &str, secret: &str, now: i64) -> (r: Option<String>)
    ensures
        text_view(r) == token_subject(token@, secret@, now as int),
{
    subject_if_current(jwt_decode(token, secret), now)
}

/// The user that the token stands for at the reading of the system clock.
///
/// Whatever the clock says, a user that is returned is the subject of the
/// token's verified claims, and a token without such claims gives nobody.
pub fn verify_token(token: &str, secret: &str) -> (r: Option<String>)
    ensures
        exists|now: int| text_view(r) == #[trigger] token_subject(token@, secret@, now),
{
    let now = unix_time_now();
    let r = verify_token_at(token, secret, now);
    proof {
        assert(text_view(r) == token_subject(token@, secret@, now as int));
    }
    r
}

} // verus!
