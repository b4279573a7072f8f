//! The use cases: register, login, verify and logout, each a fixed sequence
//! of calls on the credential store and the token authority.

use vstd::prelude::*;
use crate::authority::{
    AuthorityView, TokenAuthority, authority_issue, authority_revoke, authority_revoke_outcome,
    authority_validate, issue_outcome, issued,
};
use crate::bearer::{bearer_of, bearer_token};
use crate::database::{
    Query, RecordView, User, UserDB, UserView, login_outcome, new_record, no_match, registered,
    selected_user, taken,
};
use crate::ident::random_uuid;
use crate::password::hash_password;
use crate::error::AuthError;

verus! {

/// What an answer with a user is in contracts.
pub open spec fn outcome_view(r: Result<User, AuthError>) -> Result<UserView, AuthError> {
    match r {
        Ok(user) => Ok(user@),
        Err(e) => Err(e),
    }
}

/// Whom a token identifies at the time `now`: `Unauthorized` where it stands
/// for nobody, `NotFound` where the user it stands for is not in the store.
pub open spec fn whoami(
    users: Seq<RecordView>,
    authority: AuthorityView,
    token: Seq<char>,
    now: int,
) -> Result<UserView, AuthError> {
    match authority_validate(authority, token, now) {
        Some(id) => match selected_user(users, Query::Id, id) {
            Some(user) => Ok(user),
            None => Err(AuthError::NotFound),
        },
        None => Err(AuthError::Unauthorized),
    }
}

/// What an answer with a token is in contracts.
pub open spec fn token_view(r: Result<String, AuthError>) -> Result<Seq<char>, AuthError> {
    match r {
        Ok(token) => Ok(token@),
        Err(e) => Err(e),
    }
}

/// What registering answers when the identifier drawn is `id`, the clock
/// reads `now` and the random generator gives `fresh`: `Conflict` for a
/// taken username or e-mail address; else the token issued to `id`, or
/// `Internal` where the identifier is taken or no token can be issued.
pub open spec fn register_outcome(
    users: Seq<RecordView>,
    authority: AuthorityView,
    username: Seq<char>,
    email: Seq<char>,
    id: Seq<char>,
    now: int,
    fresh: Seq<char>,
) -> Result<Seq<char>, AuthError> {
    if taken(users, username, email) {
        Err(AuthError::Conflict)
    } else if !no_match(users, Query::Id, id) {
        Err(AuthError::Internal)
    } else {
        match issue_outcome(authority, id, now, fresh) {
            Some(token) => Ok(token),
            None => Err(AuthError::Internal),
        }
    }
}

/// What a login answers when the clock reads `now` and the random generator
/// gives `fresh`: `Unauthorized` unless the login string selects a user
/// whose credential accepts the password; else the token issued to that
/// user, or `Internal` where none can be issued.
pub open spec fn login_token(
    users: Seq<RecordView>,
    authority: AuthorityView,
    login: Seq<char>,
    password: Seq<char>,
    now: int,
    fresh: Seq<char>,
) -> Result<Seq<char>, AuthError> {
    match login_outcome(users, login, password) {
        Some(user) => match issue_outcome(authority, user.id, now, fresh) {
            Some(token) => Ok(token),
            None => Err(AuthError::Internal),
        },
        None => Err(AuthError::Unauthorized),
    }
}

/// The authentication service: the credential store and the token
/// authority of one deployment.
pub struct AuthService {
    pub users: UserDB,
    pub tokens: TokenAuthority,
}

impl AuthService {
    /// Both parts keep their invariants.
    pub open spec fn wf(&self) -> bool {
        self.users.wf() && self.tokens.wf()
    }

    /// A service over the given store and authority.
    pub fn new(users: UserDB, tokens: TokenAuthority) -> (service: AuthService)
        requires
            users.wf(),
            tokens.wf(),
        ensures
            service.wf(),
            service.users == users,
            service.tokens == tokens,
    {
        AuthService { users, tokens }
    }

    /// Registers a user under an identifier and a credential that the caller
    /// supplies, and issues a token to them, given the reading of the clock
    /// and a fresh random text.
    ///
    /// The answer is what `register_outcome` says. On success the store has
    /// grown by the new user's row and the token is the only change to the
    /// authority; on any error nothing has changed.
    pub fn register_with(
        &mut self,
        username: String,
        email: String,
        id: String,
        credential: String,
        now: i64,
        fresh: String,
    ) -> (r: Result<String, AuthError>)
        requires
            old(self).wf(),
        ensures
            final(self).wf(),
            final(self).users.cost() == old(self).users.cost(),
            token_view(r) == register_outcome(
                old(self).users@,
                old(self).tokens@,
                username@,
                email@,
                id@,
                now as int,
                fresh@,
            ),
            r matches Ok(token) ==> {
                &&& final(self).users@ == old(self).users@.push(
                    new_record(id@, username@, email@, credential@),
                )
                &&& final(self).tokens@ == authority_issue(old(self).tokens@, token@, id@)
                &&& issued(old(self).tokens@, final(self).tokens@, token@, id@)
            },
            r is Err ==> {
                &&& final(self).users@ == old(self).users@
                &&& final(self).tokens@ == old(self).tokens@
            },
    {
        let email_exists = self.users.get_user_by_email(email.as_str()).is_some();
        let username_exists = self.users.get_user_by_username(username.as_str()).is_some();
        if email_exists || username_exists {
            return Err(AuthError::Conflict);
        }
        if self.users.get_user_by_id(id.clone()).is_some() {
            return Err(AuthError::Internal);
        }
        let token = match self.tokens.issue_with(id.clone(), now, fresh) {
            Ok(token) => token,
            Err(e) => {
                return Err(e);
            },
        };
        let user = User { id, username, email, role: "user".to_owned(), verified: false };
        match self.users.insert_user(user, credential) {
            Ok(()) => Ok(token),
            Err(e) => Err(e),
        }
    }

    /// Registers a user and issues a token to them.
    ///
    /// A taken username or e-mail address is a `Conflict`. Otherwise the
    /// password is hashed, an identifier is drawn and a token is issued to
    /// it; `Internal` reports that one of these failed. On any error nothing
    /// has changed. On success the store has grown by exactly the new user,
    /// whose credential accepts the password, and the token was issued to
    /// the new identifier.
    pub fn register(&mut self, username: String, email: String, password: String) -> (r: Result<
        String,
        AuthError,
    >)
        requires
            old(self).wf(),
        ensures
            final(self).wf(),
            final(self).users.cost() == old(self).users.cost(),
            taken(old(self).users@, username@, email@) ==> (r matches Err(e) && e
                == AuthError::Conflict),
            r matches Err(e) ==> {
                &&& final(self).users@ == old(self).users@
                &&& final(self).tokens@ == old(self).tokens@
                &&& e == AuthError::Conflict || e == AuthError::Internal
                &&& e == AuthError::Conflict ==> taken(old(self).users@, username@, email@)
            },
            r matches Ok(token) ==> {
                &&& !taken(old(self).users@, username@, email@)
                &&& registered(old(self).users@, final(self).users@, username@, email@, password@)
                &&& issued(
                    old(self).tokens@,
                    final(self).tokens@,
                    token@,
                    final(self).users@.last().user.id,
                )
            },
    {
        let email_exists = self.users.get_user_by_email(email.as_str()).is_some();
        let username_exists = self.users.get_user_by_username(username.as_str()).is_some();
        if email_exists || username_exists {
            return Err(AuthError::Conflict);
        }
        let credential = match hash_password(password.as_str(), self.users.hash_cost()) {
            Ok(credential) => credential,
            Err(e) => {
                return Err(e);
            },
        };
        let id = random_uuid();
        let (now, fresh) = self.tokens.draw();
        let r = self.register_with(username, email, id, credential, now, fresh);
        proof {
            if r is Ok {
                assert(self.users@.drop_last() =~= old(self).users@);
            }
        }
        r
    }

    /// Checks the credentials and issues a token to the user they belong
    /// to, given the reading of the clock and a fresh random text.
    ///
    /// The answer is what `login_token` says. The store never changes; the
    /// token, on success, is the only change to the authority.
    pub fn login_with(&mut self, login: &str, password: &str, now: i64, fresh: String) -> (r:
        Result<String, AuthError>)
        requires
            old(self).wf(),
        ensures
            final(self).wf(),
            final(self).users@ == old(self).users@,
            final(self).users.cost() == old(self).users.cost(),
            token_view(r) == login_token(
                old(self).users@,
                old(self).tokens@,
                login@,
                password@,
                now as int,
                fresh@,
            ),
            r matches Ok(token) ==> {
                &&& login_outcome(old(self).users@, login@, password@) matches Some(user)
                &&& final(self).tokens@ == authority_issue(old(self).tokens@, token@, user.id)
                &&& issued(old(self).tokens@, final(self).tokens@, token@, user.id)
            },
            r is Err ==> final(self).tokens@ == old(self).tokens@,
    {
        match self.users.verify_login(login, password) {
            Some(user) => self.tokens.issue_with(user.id, now, fresh),
            None => Err(AuthError::Unauthorized),
        }
    }

    /// Checks the credentials and issues a token to the user they belong to.
    ///
    /// An unknown login and a wrong password are both `Unauthorized`, and
    /// nothing changes. With matching credentials a token is issued to the
    /// user, or `Internal` reports that none could be. The store never
    /// changes.
    pub fn login(&mut self, login: &str, password: &str) -> (r: Result<String, AuthError>)
        requires
            old(self).wf(),
        ensures
            final(self).wf(),
            final(self).users@ == old(self).users@,
            final(self).users.cost() == old(self).users.cost(),
            match login_outcome(old(self).users@, login@, password@) {
                Some(user) => match r {
                    Ok(token) => issued(old(self).tokens@, final(self).tokens@, token@, user.id),
                    Err(e) => e == AuthError::Internal && final(self).tokens@ == old(self).tokens@,
                },
                None => {
                    &&& r == Err::<String, AuthError>(AuthError::Unauthorized)
                    &&& final(self).tokens@ == old(self).tokens@
                },
            },
    {
        let (now, fresh) = self.tokens.draw();
        self.login_with(login, password, now, fresh)
    }

    /// The user that the token identifies at the time `now`.
    pub fn verify_at(&self, token: &str, now: i64) -> (r: Result<User, AuthError>)
        requires
            self.wf(),
        ensures
            outcome_view(r) == whoami(self.users@, self.tokens@, token@, now as int),
    {
        match self.tokens.validate_at(token, now) {
            Some(id) => match self.users.get_user_by_id(id) {
                Some(user) => Ok(user),
                None => Err(AuthError::NotFound),
            },
            None => Err(AuthError::Unauthorized),
        }
    }

    /// The user that the token identifies; a signed token is checked at the
    /// reading of the system clock.
    pub fn verify(&self, token: &str) -> (r: Result<User, AuthError>)
        requires
            self.wf(),
        ensures
            exists|now: int| outcome_view(r) == #[trigger] whoami(
                self.users@,
                self.tokens@,
                token@,
                now,
            ),
    {
        match self.tokens.validate(token) {
            Some(id) => {
                let ghost now = choose|now: int|
                    Some(id@) == #[trigger] authority_validate(self.tokens@, token@, now);
                let r = match self.users.get_user_by_id(id) {
                    Some(user) => Ok(user),
                    None => Err(AuthError::NotFound),
                };
                assert(outcome_view(r) == whoami(self.users@, self.tokens@, token@, now));
                r
            },
            None => {
                let ghost now = choose|now: int|
                    None::<Seq<char>> == #[trigger] authority_validate(self.tokens@, token@, now);
                let r = Err(AuthError::Unauthorized);
                assert(outcome_view(r) == whoami(self.users@, self.tokens@, token@, now));
                r
            },
        }
    }

    /// The user that the token in an `Authorization` header value
    /// identifies.
    pub fn verify_header(&self, authorization: &str) -> (r: Result<User, AuthError>)
        requires
            self.wf(),
        ensures
            exists|now: int| outcome_view(r) == #[trigger] whoami(
                self.users@,
                self.tokens@,
                bearer_of(authorization@),
                now,
            ),
    {
        let token = bearer_token(authorization);
        self.verify(token.as_str())
    }

    /// Ends the session of a token. With opaque tokens the token is
    /// revoked, or `NotFound` if it is not active, as after an earlier
    /// logout. With signed tokens nothing happens and the token stays valid
    /// until it expires.
    pub fn logout(&mut self, token: &str) -> (r: Result<(), AuthError>)
        requires
            old(self).wf(),
        ensures
            final(self).wf(),
            final(self).users@ == old(self).users@,
            final(self).users.cost() == old(self).users.cost(),
            r == authority_revoke_outcome(old(self).tokens@, token@),
            r is Ok ==> final(self).tokens@ == authority_revoke(old(self).tokens@, token@),
            r is Err ==> final(self).tokens@ == old(self).tokens@,
    {
        self.tokens.revoke(token)
    }
}

} // verus!
