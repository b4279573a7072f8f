//! The token authority: one interface over the two kinds of session token,
//! chosen when the service is set up.

use vstd::prelude::*;
use crate::error::AuthError;
use crate::text::text_view;
use crate::sessions::{Table, TokenTable, table_issue, table_revoke, table_validate, revoke_outcome};
use crate::ident::{IDENT_LEN, random_uuid};
use crate::tokens::{
    create_token_at, signed_at, signed_token, token_subject, unix_time_now, verify_token,
    verify_token_at,
};

verus! {

/// What signed tokens are issued and checked with.
pub struct SignedTokens {
    /// The server's signing secret.
    pub secret: String,
    /// The number of seconds for which a token is valid.
    pub duration: i64,
}

/// The token authority of a deployment.
pub enum TokenAuthority {
    /// Stateless signed tokens that expire and cannot be revoked.
    Signed(SignedTokens),
    /// Opaque tokens held in a table, valid until revoked.
    Opaque(TokenTable),
}

/// The authority as contracts see it.
pub ghost enum AuthorityView {
    Signed { secret: Seq<char>, duration: int },
    Opaque { table: Table },
}

impl View for TokenAuthority {
    type V = AuthorityView;

    open spec fn view(&self) -> AuthorityView {
        match self {
            TokenAuthority::Signed(signed) => AuthorityView::Signed {
                secret: signed.secret@,
                duration: signed.duration as int,
            },
            TokenAuthority::Opaque(table) => AuthorityView::Opaque { table: table@ },
        }
    }
}

/// The user that a token stands for at the time `now`. The time matters to
/// signed tokens only.
pub open spec fn authority_validate(authority: AuthorityView, token: Seq<char>, now: int) -> Option<
    Seq<char>,
> {
    match authority {
        AuthorityView::Signed { secret, duration } => token_subject(token, secret, now),
        AuthorityView::Opaque { table } => table_validate(table, token),
    }
}

/// The step from `before` to `after` issued `token` to the user: an opaque
/// token was not active and is the one entry added; a signed token leaves
/// the authority as it is and was issued at some time.
pub open spec fn issued(
    before: AuthorityView,
    after: AuthorityView,
    token: Seq<char>,
    user_id: Seq<char>,
) -> bool {
    &&& before is Signed ==> after == before && exists|now: int|
        #[trigger] signed_at(before->secret, before->duration, token, user_id, now)
    &&& before is Opaque ==> !before->table.contains_key(token) && after
        == (AuthorityView::Opaque { table: table_issue(before->table, token, user_id) })
}

/// The token that is issued to the user when the clock reads `now` and the
/// random generator gives `fresh`: a signed token is the encoding that the
/// time gives; an opaque token is the fresh text, unless that is already
/// active. `None` where no token can be issued.
pub open spec fn issue_outcome(
    authority: AuthorityView,
    user_id: Seq<char>,
    now: int,
    fresh: Seq<char>,
) -> Option<Seq<char>> {
    match authority {
        AuthorityView::Signed { secret, duration } => signed_token(user_id, secret, duration, now),
        AuthorityView::Opaque { table } => if table.contains_key(fresh) {
            None
        } else {
            Some(fresh)
        },
    }
}

/// The authority after a token was issued to the user.
pub open spec fn authority_issue(
    authority: AuthorityView,
    token: Seq<char>,
    user_id: Seq<char>,
) -> AuthorityView {
    match authority {
        AuthorityView::Signed { secret, duration } => authority,
        AuthorityView::Opaque { table } => AuthorityView::Opaque {
            table: table_issue(table, token, user_id),
        },
    }
}

/// What revoking answers: signed tokens cannot be revoked, and revoking one
/// does nothing and reports success; an opaque token must be active.
pub open spec fn authority_revoke_outcome(authority: AuthorityView, token: Seq<char>) -> Result<
    (),
    AuthError,
> {
    match authority {
        AuthorityView::Signed { secret, duration } => Ok(()),
        AuthorityView::Opaque { table } => revoke_outcome(table, token),
    }
}

/// The authority after a token was revoked.
pub open spec fn authority_revoke(authority: AuthorityView, token: Seq<char>) -> AuthorityView {
    match authority {
        AuthorityView::Signed { secret, duration } => authority,
        AuthorityView::Opaque { table } => AuthorityView::Opaque {
            table: table_revoke(table, token),
        },
    }
}

/// A token that was just issued stands for its user: an opaque token at any
/// time, a signed token at every time before the expiry that its time of
/// issue gives, and at no time from then on.
pub proof fn lemma_issued_token_validates(
    before: AuthorityView,
    after: AuthorityView,
    token: Seq<char>,
    user_id: Seq<char>,
)
    requires
        issued(before, after, token, user_id),
    ensures
        before is Opaque ==> forall|at: int|
            #[trigger] authority_validate(after, token, at) == Some(user_id),
        before matches AuthorityView::Signed { secret, duration } ==> exists|now: int|
            #![trigger signed_at(secret, duration, token, user_id, now)]
            forall|at: int|
                #[trigger] authority_validate(after, token, at) == if at < now + duration {
                    Some(user_id)
                } else {
                    None
                },
{
    match before {
        AuthorityView::Signed { secret, duration } => {
            let now = choose|now: int| #[trigger] signed_at(secret, duration, token, user_id, now);
            assert(signed_at(secret, duration, token, user_id, now));
            assert forall|at: int| #[trigger]
                authority_validate(after, token, at) == if at < now + duration {
                    Some(user_id)
                } else {
                    None
                } by {
                assert(authority_validate(after, token, at) == token_subject(token, secret, at));
            }
        },
        AuthorityView::Opaque { table } => {},
    }
}

/// Once an opaque token is revoked it stands for nobody, at any time, and
/// revoking it again reports `NotFound`.
pub proof fn lemma_revoked_token_is_gone(authority: AuthorityView, token: Seq<char>, now: int)
    requires
        authority is Opaque,
    ensures
        authority_validate(authority_revoke(authority, token), token, now) is None,
        authority_revoke_outcome(authority_revoke(authority, token), token) == Err::<
            (),
            AuthError,
        >(AuthError::NotFound),
{
}

impl TokenAuthority {
    /// The table of an opaque authority holds no token twice.
    pub open spec fn wf(&self) -> bool {
        match self {
            TokenAuthority::Signed(_) => true,
            TokenAuthority::Opaque(table) => table.wf(),
        }
    }

    /// An authority for signed tokens.
    pub fn signed(secret: String, duration: i64) -> (authority: TokenAuthority)
        ensures
            authority.wf(),
            authority@ == (AuthorityView::Signed { secret: secret@, duration: duration as int }),
    {
        TokenAuthority::Signed(SignedTokens { secret, duration })
    }

    /// An authority for opaque tokens, with no token active.
    pub fn opaque() -> (authority: TokenAuthority)
        ensures
            authority.wf(),
            authority@ == (AuthorityView::Opaque { table: Table::empty() }),
    {
        TokenAuthority::Opaque(TokenTable::new())
    }

    /// Issues a token to the user, given the reading of the clock and a
    /// fresh random text. A signed token uses the time only, an opaque token
    /// the text only.
    ///
    /// The token is the one that `issue_outcome` names, and issuing it is
    /// the only change. Where there is none the answer is `Internal` and
    /// nothing changes.
    pub fn issue_with(&mut self, user_id: String, now: i64, fresh: String) -> (r: Result<
        String,
        AuthError,
    >)
        requires
            old(self).wf(),
        ensures
            final(self).wf(),
            match issue_outcome(old(self)@, user_id@, now as int, fresh@) {
                Some(token) => {
                    &&& r matches Ok(given) && given@ == token
                    &&& final(self)@ == authority_issue(old(self)@, token, user_id@)
                    &&& issued(old(self)@, final(self)@, token, user_id@)
                },
                None => {
                    &&& r == Err::<String, AuthError>(AuthError::Internal)
                    &&& final(self)@ == old(self)@
                },
            },
    {
        match self {
            TokenAuthority::Signed(signed) => {
                let r = create_token_at(user_id, signed.secret.as_str(), signed.duration, now);
                proof {
                    if r is Ok {
                        assert(signed_at(
                            old(self)@->secret,
                            old(self)@->duration,
                            r.unwrap()@,
                            user_id@,
                            now as int,
                        ));
                    }
                }
                r
            },
            TokenAuthority::Opaque(table) => {
                let token = fresh.clone();
                match table.insert(fresh, user_id) {
                    Ok(()) => Ok(token),
                    Err(_) => Err(AuthError::Internal),
                }
            },
        }
    }

    /// Reads what issuing depends on: the system clock for signed tokens, the
    /// random generator for opaque ones. The value that the kind does not use
    /// is not drawn: the text is empty for signed tokens, the time is zero for
    /// opaque ones. Of the clock's reading nothing is known; the random text
    /// has the length of an identifier.
    pub(crate) fn draw(&self) -> (drawn: (i64, String))
        ensures
            self is Signed ==> drawn.1@ == Seq::<char>::empty(),
            self is Opaque ==> drawn.0 == 0 && drawn.1@.len() == IDENT_LEN,
    {
        match self {
            TokenAuthority::Signed(_) => (unix_time_now(), String::new()),
            TokenAuthority::Opaque(_) => (0, random_uuid()),
        }
    }

    /// Issues a token to the user.
    ///
    /// A signed token depends on the clock and an opaque one on the random
    /// generator; whatever they give, a token that is returned was issued to
    /// this user as `issued` says. On `Internal` nothing has changed.
    pub fn issue(&mut self, user_id: String) -> (r: Result<String, AuthError>)
        requires
            old(self).wf(),
        ensures
            final(self).wf(),
            r matches Ok(token) ==> issued(old(self)@, final(self)@, token@, user_id@),
            r matches Err(e) ==> e == AuthError::Internal && final(self)@ == old(self)@,
    {
        let (now, fresh) = self.draw();
        self.issue_with(user_id, now, fresh)
    }

    /// The user that the token stands for at the time `now`.
    pub fn validate_at(&self, token: &str, now: i64) -> (r: Option<String>)
        requires
            self.wf(),
        ensures
            text_view(r) == authority_validate(self@, token@, now as int),
    {
        match self {
            TokenAuthority::Signed(signed) => verify_token_at(token, signed.secret.as_str(), now),
            TokenAuthority::Opaque(table) => table.validate(token),
        }
    }

    /// The user that the token stands for; a signed token is checked at the
    /// reading of the system clock.
    pub fn validate(&self, token: &str) -> (r: Option<String>)
        requires
            self.wf(),
        ensures
            exists|now: int| text_view(r) == #[trigger] authority_validate(self@, token@, now),
    {
        match self {
            TokenAuthority::Signed(signed) => {
                let r = verify_token(token, signed.secret.as_str());
                proof {
                    let now = choose|now: int|
                        text_view(r) == #[trigger] token_subject(token@, signed.secret@, now);
                    assert(text_view(r) == authority_validate(self@, token@, now));
                }
                r
            },
            TokenAuthority::Opaque(table) => {
                let r = table.validate(token);
                assert(text_view(r) == authority_validate(self@, token@, 0));
                r
            },
        }
    }

    /// Revokes a token. An opaque token leaves the table, or `NotFound` if
    /// it is not active. A signed token cannot be revoked: it stays valid
    /// until it expires, and the call changes nothing and reports success.
    pub fn revoke(&mut self, token: &str) -> (r: Result<(), AuthError>)
        requires
            old(self).wf(),
        ensures
            final(self).wf(),
            r == authority_revoke_outcome(old(self)@, token@),
            r is Ok ==> final(self)@ == authority_revoke(old(self)@, token@),
            r is Err ==> final(self)@ == old(self)@,
    {
        match self {
            TokenAuthority::Signed(_) => Ok(()),
            TokenAuthority::Opaque(table) => table.revoke(token),
        }
    }
}

} // verus!
