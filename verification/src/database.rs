//! The credential store: user records with unique identifiers, usernames and
//! e-mail addresses, looked up by any of them, each with the hashed
//! credential that a login is checked against.
//!
//! The store is the single writer of its records. Every change takes
//! `&mut self`, so two registrations never overlap: one of two attempts on
//! the same username or e-mail address finds the other's row and is refused.
//! Comparisons are exact: `Alice` and `alice` are different usernames.

use vstd::prelude::*;
use crate::error::AuthError;
use crate::ident::random_uuid;
use crate::password::{hash_password, password_matches, verify_password};
use crate::text::text_view;

verus! {

/// The public fields of a user. The credential is not among them.
#[derive(Clone, Debug, PartialEq, Eq)]
pub struct User {
    pub id: String,
    pub username: String,
    pub email: String,
    pub role: String,
    pub verified: bool,
}

/// A user as contracts see it.
pub ghost struct UserView {
    pub id: Seq<char>,
    pub username: Seq<char>,
    pub email: Seq<char>,
    pub role: Seq<char>,
    pub verified: bool,
}

impl View for User {
    type V = UserView;

    open spec fn view(&self) -> UserView {
        UserView {
            id: self.id@,
            username: self.username@,
            email: self.email@,
            role: self.role@,
            verified: self.verified,
        }
    }
}

impl User {
    /// A copy with the same fields.
    pub fn duplicate(&self) -> (copy: User)
        ensures
            copy@ == self@,
    {
        User {
            id: self.id.clone(),
            username: self.username.clone(),
            email: self.email.clone(),
            role: self.role.clone(),
            verified: self.verified,
        }
    }
}

/// One row of the store: a user and the credential made from the password.
struct Record {
    user: User,
    password: String,
}

/// A row as contracts see it.
pub ghost struct RecordView {
    pub user: UserView,
    pub password: Seq<char>,
}

impl View for Record {
    type V = RecordView;

    closed spec fn view(&self) -> RecordView {
        RecordView { user: self.user@, password: self.password@ }
    }
}

/// The column, or pair of columns, that a lookup compares its key with.
#[derive(Clone, Copy, Debug, PartialEq, Eq, Structural)]
pub enum Query {
    Id,
    Username,
    Email,
    /// The e-mail address or the username.
    Login,
}

/// Whether a lookup of `key` selects the row.
pub open spec fn selects(query: Query, record: RecordView, key: Seq<char>) -> bool {
    match query {
        Query::Id => record.user.id == key,
        Query::Username => record.user.username == key,
        Query::Email => record.user.email == key,
        Query::Login => record.user.email == key || record.user.username == key,
    }
}

/// No row is selected.
pub open spec fn no_match(records: Seq<RecordView>, query: Query, key: Seq<char>) -> bool {
    forall|i: int| 0 <= i < records.len() ==> !selects(query, #[trigger] records[i], key)
}

/// Row `i` is selected and no row before it is.
pub open spec fn is_first_match(
    records: Seq<RecordView>,
    query: Query,
    key: Seq<char>,
    i: int,
) -> bool {
    &&& 0 <= i < records.len()
    &&& selects(query, records[i], key)
    &&& forall|j: int| 0 <= j < i ==> !selects(query, #[trigger] records[j], key)
}

/// The row that a lookup returns: the first one selected, in the order of
/// insertion.
pub open spec fn lookup(records: Seq<RecordView>, query: Query, key: Seq<char>) -> Option<
    RecordView,
> {
    if no_match(records, query, key) {
        None
    } else {
        Some(records[position(records, query, key)])
    }
}

/// The position of the row that a lookup returns, where there is one.
pub open spec fn position(records: Seq<RecordView>, query: Query, key: Seq<char>) -> int {
    choose|i: int| is_first_match(records, query, key, i)
}

/// No two rows share an identifier, a username or an e-mail address.
pub open spec fn unique_users(records: Seq<RecordView>) -> bool {
    forall|i: int, j: int|
        0 <= i < j < records.len() ==> {
            &&& (#[trigger] records[i]).user.id != (#[trigger] records[j]).user.id
            &&& records[i].user.username != records[j].user.username
            &&& records[i].user.email != records[j].user.email
        }
}

/// The user that a lookup returns.
pub open spec fn selected_user(records: Seq<RecordView>, query: Query, key: Seq<char>) -> Option<
    UserView,
> {
    match lookup(records, query, key) {
        Some(record) => Some(record.user),
        None => None,
    }
}

/// What an optional user is in contracts.
pub open spec fn user_view(user: Option<User>) -> Option<UserView> {
    match user {
        Some(user) => Some(user@),
        None => None,
    }
}

/// A username or an e-mail address is already in the store.
pub open spec fn taken(records: Seq<RecordView>, username: Seq<char>, email: Seq<char>) -> bool {
    !no_match(records, Query::Username, username) || !no_match(records, Query::Email, email)
}

/// What inserting a user into the store answers: `Conflict` for a taken
/// username or e-mail address, `Internal` for a taken identifier.
pub open spec fn insert_outcome(records: Seq<RecordView>, user: UserView) -> Result<
    (),
    AuthError,
> {
    if taken(records, user.username, user.email) {
        Err(AuthError::Conflict)
    } else if !no_match(records, Query::Id, user.id) {
        Err(AuthError::Internal)
    } else {
        Ok(())
    }
}

/// The rows after an attempt to insert one more: the row is added at the
/// end where the store accepts it, and nothing changes where it does not.
pub open spec fn insert_row(records: Seq<RecordView>, added: RecordView) -> Seq<RecordView> {
    if insert_outcome(records, added.user) is Ok {
        records.push(added)
    } else {
        records
    }
}

/// The rows after a sequence of attempts, made one after the other on a
/// store that starts with `records`.
pub open spec fn insert_all(records: Seq<RecordView>, attempts: Seq<RecordView>) -> Seq<
    RecordView,
>
    decreases attempts.len(),
{
    if attempts.len() == 0 {
        records
    } else {
        insert_row(insert_all(records, attempts.drop_last()), attempts.last())
    }
}

/// The row with its user marked as verified.
pub open spec fn verified_record(record: RecordView) -> RecordView {
    RecordView {
        user: UserView {
            id: record.user.id,
            username: record.user.username,
            email: record.user.email,
            role: record.user.role,
            verified: true,
        },
        password: record.password,
    }
}

/// What a login answers: the user that the login string selects, if the
/// stored credential accepts the password.
pub open spec fn login_outcome(
    records: Seq<RecordView>,
    login: Seq<char>,
    password: Seq<char>,
) -> Option<UserView> {
    match lookup(records, Query::Login, login) {
        Some(record) => if password_matches(password, record.password) {
            Some(record.user)
        } else {
            None
        },
        None => None,
    }
}

/// The row of a user who has just registered: the role `user`, not
/// verified.
pub open spec fn new_record(
    id: Seq<char>,
    username: Seq<char>,
    email: Seq<char>,
    credential: Seq<char>,
) -> RecordView {
    RecordView {
        user: UserView { id, username, email, role: "user"@, verified: false },
        password: credential,
    }
}

/// The step from `before` to `after` registered a user: exactly one row was
/// added, at the end, with the username and the e-mail address, the role
/// `user`, not verified, and a credential that accepts the password.
pub open spec fn registered(
    before: Seq<RecordView>,
    after: Seq<RecordView>,
    username: Seq<char>,
    email: Seq<char>,
    password: Seq<char>,
) -> bool {
    &&& after.len() == before.len() + 1
    &&& after.drop_last() == before
    &&& after.last().user.username == username
    &&& after.last().user.email == email
    &&& after.last().user.role == "user"@
    &&& !after.last().user.verified
    &&& password_matches(password, after.last().password)
}

/// A first match is the row that `lookup` returns.
pub proof fn lemma_first_match_is_lookup(
    records: Seq<RecordView>,
    query: Query,
    key: Seq<char>,
    i: int,
)
    requires
        is_first_match(records, query, key, i),
    ensures
        position(records, query, key) == i,
        lookup(records, query, key) == Some(records[i]),
{
    let k = choose|k: int| is_first_match(records, query, key, k);
    assert(selects(query, records[i], key));
    assert(!no_match(records, query, key));
    if k < i {
        assert(!selects(query, records[k], key));
    }
    if i < k {
        assert(!selects(query, records[i], key));
    }
}

/// Adding a row whose identifier, username and e-mail address are all free
/// keeps the rows unique: however many users register, no two of them ever
/// share a username or an e-mail address.
pub proof fn lemma_insert_keeps_unique(records: Seq<RecordView>, added: RecordView)
    requires
        unique_users(records),
        no_match(records, Query::Id, added.user.id),
        no_match(records, Query::Username, added.user.username),
        no_match(records, Query::Email, added.user.email),
    ensures
        unique_users(records.push(added)),
{
    let grown = records.push(added);
    assert forall|i: int, j: int| 0 <= i < j < grown.len() implies {
        &&& (#[trigger] grown[i]).user.id != (#[trigger] grown[j]).user.id
        &&& grown[i].user.username != grown[j].user.username
        &&& grown[i].user.email != grown[j].user.email
    } by {
        if j == records.len() {
            assert(!selects(Query::Id, records[i], added.user.id));
            assert(!selects(Query::Username, records[i], added.user.username));
            assert(!selects(Query::Email, records[i], added.user.email));
        } else {
            assert(grown[i] == records[i] && grown[j] == records[j]);
        }
    }
}

/// Whatever sequence of registrations is attempted, with whatever repeated
/// names, the stored users stay unique.
pub proof fn lemma_registrations_stay_unique(records: Seq<RecordView>, attempts: Seq<RecordView>)
    requires
        unique_users(records),
    ensures
        unique_users(insert_all(records, attempts)),
    decreases attempts.len(),
{
    if attempts.len() > 0 {
        let before = insert_all(records, attempts.drop_last());
        lemma_registrations_stay_unique(records, attempts.drop_last());
        if insert_outcome(before, attempts.last().user) is Ok {
            lemma_insert_keeps_unique(before, attempts.last());
        }
    }
}

/// Once registered, a user is found by username and by e-mail address. A
/// login with either and the password succeeds, unless an earlier user
/// holds the same text in the other column and so is selected first.
pub proof fn lemma_registered_user_is_found(
    before: Seq<RecordView>,
    after: Seq<RecordView>,
    username: Seq<char>,
    email: Seq<char>,
    password: Seq<char>,
)
    requires
        !taken(before, username, email),
        registered(before, after, username, email, password),
    ensures
        selected_user(after, Query::Username, username) == Some(after.last().user),
        selected_user(after, Query::Email, email) == Some(after.last().user),
        no_match(before, Query::Login, username) ==> login_outcome(after, username, password)
            == Some(after.last().user),
        no_match(before, Query::Login, email) ==> login_outcome(after, email, password) == Some(
            after.last().user,
        ),
{
    let at = after.len() - 1;
    assert forall|j: int| 0 <= j < at implies after[j] == before[j] by {
        assert(after.drop_last()[j] == after[j]);
    }
    assert(is_first_match(after, Query::Username, username, at)) by {
        assert forall|j: int| 0 <= j < at implies !selects(
            Query::Username,
            #[trigger] after[j],
            username,
        ) by {
            assert(!selects(Query::Username, before[j], username));
        }
    }
    assert(is_first_match(after, Query::Email, email, at)) by {
        assert forall|j: int| 0 <= j < at implies !selects(
            Query::Email,
            #[trigger] after[j],
            email,
        ) by {
            assert(!selects(Query::Email, before[j], email));
        }
    }
    lemma_first_match_is_lookup(after, Query::Username, username, at);
    lemma_first_match_is_lookup(after, Query::Email, email, at);
    if no_match(before, Query::Login, username) {
        assert forall|j: int| 0 <= j < at implies !selects(
            Query::Login,
            #[trigger] after[j],
            username,
        ) by {
            assert(!selects(Query::Login, before[j], username));
        }
        lemma_first_match_is_lookup(after, Query::Login, username, at);
    }
    if no_match(before, Query::Login, email) {
        assert forall|j: int| 0 <= j < at implies !selects(
            Query::Login,
            #[trigger] after[j],
            email,
        ) by {
            assert(!selects(Query::Login, before[j], email));
        }
        lemma_first_match_is_lookup(after, Query::Login, email, at);
    }
}

/// The credential store.
pub struct UserDB {
    records: Vec<Record>,
    cost: u32,
}

impl View for UserDB {
    type V = Seq<RecordView>;

    closed spec fn view(&self) -> Seq<RecordView> {
        Seq::new(self.records@.len(), |i: int| self.records@[i]@)
    }
}

fn record_selected(record: &Record, query: Query, key: &String) -> (b: bool)
    ensures
        b == selects(query, record@, key@),
{
    match query {
        Query::Id => record.user.id == *key,
        Query::Username => record.user.username == *key,
        Query::Email => record.user.email == *key,
        Query::Login => record.user.email == *key || record.user.username == *key,
    }
}

impl UserDB {
    /// The work factor of the store, in contracts.
    pub closed spec fn cost(&self) -> u32 {
        self.cost
    }

    /// The store's invariant: identifiers, usernames and e-mail addresses are
    /// each unique among the stored users.
    pub open spec fn wf(&self) -> bool {
        unique_users(self@)
    }

    /// An empty store that hashes with the given work factor.
    pub fn new(cost: u32) -> (db: UserDB)
        ensures
            db.wf(),
            db@ == Seq::<RecordView>::empty(),
            db.cost() == cost,
    {
        UserDB { records: Vec::new(), cost }
    }

    /// The work factor that new credentials are hashed with.
    pub fn hash_cost(&self) -> (cost: u32)
        ensures
            cost == self.cost(),
    {
        self.cost
    }

    /// The number of stored users.
    pub fn len(&self) -> (n: usize)
        ensures
            n == self@.len(),
    {
        self.records.len()
    }

    /// The position of the first row that the lookup selects.
    fn query_single(&self, query: Query, key: &String) -> (found: Option<usize>)
        ensures
            match found {
                Some(i) => is_first_match(self@, query, key@, i as int) && i < self.records@.len(),
                None => no_match(self@, query, key@),
            },
    {
        let mut i: usize = 0;
        while i < self.records.len()
            invariant
                i <= self.records@.len(),
                forall|j: int| 0 <= j < i ==> !selects(query, #[trigger] self@[j], key@),
            decreases self.records@.len() - i,
        {
            if record_selected(&self.records[i], query, key) {
                return Some(i);
            }
            i += 1;
        }
        None
    }

    /// The user that a lookup selects.
    fn fetch(&self, query: Query, key: &String) -> (r: Option<User>)
        ensures
            user_view(r) == selected_user(self@, query, key@),
    {
        match self.query_single(query, key) {
            Some(i) => {
                proof {
                    lemma_first_match_is_lookup(self@, query, key@, i as int);
                }
                Some(self.records[i].user.duplicate())
            },
            None => None,
        }
    }

    /// Adds a user with an identifier and a credential that the caller
    /// supplies. Nothing is added where the username or the e-mail address is
    /// taken (`Conflict`) or the identifier is (`Internal`).
    pub fn insert_user(&mut self, user: User, credential: String) -> (r: Result<(), AuthError>)
        requires
            old(self).wf(),
        ensures
            final(self).wf(),
            final(self).cost() == old(self).cost(),
            r == insert_outcome(old(self)@, user@),
            final(self)@ == insert_row(
                old(self)@,
                RecordView { user: user@, password: credential@ },
            ),
    {
        if self.query_single(Query::Username, &user.username).is_some() {
            return Err(AuthError::Conflict);
        }
        if self.query_single(Query::Email, &user.email).is_some() {
            return Err(AuthError::Conflict);
        }
        if self.query_single(Query::Id, &user.id).is_some() {
            return Err(AuthError::Internal);
        }
        let ghost added = RecordView { user: user@, password: credential@ };
        self.records.push(Record { user, password: credential });
        proof {
            assert(self@ =~= old(self)@.push(added));
            lemma_insert_keeps_unique(old(self)@, added);
        }
        Ok(())
    }

    /// Registers a user: a fresh identifier, the role `user`, not verified,
    /// and a credential hashed from the password.
    ///
    /// A taken username or e-mail address is a `Conflict`. Where the hash or
    /// the identifier fails the answer is `Internal`. In both cases the store
    /// is unchanged. On success the store has grown by exactly the new row,
    /// whose credential accepts the password.
    pub fn create_user(&mut self, username: String, email: String, password: String) -> (r: Result<
        User,
        AuthError,
    >)
        requires
            old(self).wf(),
        ensures
            final(self).wf(),
            final(self).cost() == old(self).cost(),
            taken(old(self)@, username@, email@) ==> (r matches Err(e) && e == AuthError::Conflict),
            r matches Err(e) ==> {
                &&& final(self)@ == old(self)@
                &&& e == AuthError::Conflict || e == AuthError::Internal
                &&& e == AuthError::Conflict ==> taken(old(self)@, username@, email@)
            },
            r matches Ok(user) ==> {
                &&& !taken(old(self)@, username@, email@)
                &&& registered(old(self)@, final(self)@, username@, email@, password@)
                &&& final(self)@.last().user == user@
            },
    {
        if self.query_single(Query::Username, &username).is_some() {
            return Err(AuthError::Conflict);
        }
        if self.query_single(Query::Email, &email).is_some() {
            return Err(AuthError::Conflict);
        }
        let credential = match hash_password(password.as_str(), self.cost) {
            Ok(credential) => credential,
            Err(_) => {
                return Err(AuthError::Internal);
            },
        };
        let user = User {
            id: random_uuid(),
            username,
            email,
            role: "user".to_owned(),
            verified: false,
        };
        let created = user.duplicate();
        match self.insert_user(user, credential) {
            Ok(()) => {
                assert(self@.drop_last() =~= old(self)@);
                Ok(created)
            },
            Err(_) => Err(AuthError::Internal),
        }
    }

    /// The user with this identifier.
    pub fn get_user_by_id(&self, id: String) -> (r: Option<User>)
        ensures
            user_view(r) == selected_user(self@, Query::Id, id@),
    {
        self.fetch(Query::Id, &id)
    }

    /// The user with this username.
    pub fn get_user_by_username(&self, username: &str) -> (r: Option<User>)
        ensures
            user_view(r) == selected_user(self@, Query::Username, username@),
    {
        self.fetch(Query::Username, &username.to_owned())
    }

    /// The user with this e-mail address.
    pub fn get_user_by_email(&self, email: &str) -> (r: Option<User>)
        ensures
            user_view(r) == selected_user(self@, Query::Email, email@),
    {
        self.fetch(Query::Email, &email.to_owned())
    }

    /// The first user whose e-mail address or username is the login string.
    pub fn get_user_by_login(&self, login: &str) -> (r: Option<User>)
        ensures
            user_view(r) == selected_user(self@, Query::Login, login@),
    {
        self.fetch(Query::Login, &login.to_owned())
    }

    /// The user that the login string selects, if the password is the one the
    /// stored credential was made from. An unknown login and a wrong password
    /// give the same answer.
    pub fn verify_login(&self, login: &str, password: &str) -> (r: Option<User>)
        ensures
            user_view(r) == login_outcome(self@, login@, password@),
    {
        match self.query_single(Query::Login, &login.to_owned()) {
            Some(i) => {
                proof {
                    lemma_first_match_is_lookup(self@, Query::Login, login@, i as int);
                }
                let record = &self.records[i];
                if verify_password(password, record.password.as_str()) {
                    Some(record.user.duplicate())
                } else {
                    None
                }
            },
            None => None,
        }
    }

    /// The stored credential of the user with this identifier.
    pub fn get_password_by_id(&self, id: &String) -> (r: Option<String>)
        ensures
            text_view(r) == match lookup(self@, Query::Id, id@) {
                Some(record) => Some(record.password),
                None => None,
            },
    {
        match self.query_single(Query::Id, id) {
            Some(i) => {
                proof {
                    lemma_first_match_is_lookup(self@, Query::Id, id@, i as int);
                }
                Some(self.records[i].password.clone())
            },
            None => None,
        }
    }

    /// Marks the user with this identifier as verified; `NotFound` where
    /// there is none. No other field and no other row changes.
    pub fn mark_verified(&mut self, id: &str) -> (r: Result<(), AuthError>)
        requires
            old(self).wf(),
        ensures
            final(self).wf(),
            final(self).cost() == old(self).cost(),
            match lookup(old(self)@, Query::Id, id@) {
                Some(record) => r is Ok && final(self)@ == old(self)@.update(
                    position(old(self)@, Query::Id, id@),
                    verified_record(record),
                ),
                None => {
                    &&& r == Err::<(), AuthError>(AuthError::NotFound)
                    &&& final(self)@ == old(self)@
                },
            },
    {
        match self.query_single(Query::Id, &id.to_owned()) {
            Some(i) => {
                proof {
                    lemma_first_match_is_lookup(self@, Query::Id, id@, i as int);
                }
                self.records[i].user.verified = true;
                proof {
                    let marked = verified_record(old(self)@[i as int]);
                    assert(self@ =~= old(self)@.update(i as int, marked));
                    assert forall|a: int, b: int| 0 <= a < b < self@.len() implies {
                        &&& (#[trigger] self@[a]).user.id != (#[trigger] self@[b]).user.id
                        &&& self@[a].user.username != self@[b].user.username
                        &&& self@[a].user.email != self@[b].user.email
                    } by {
                        assert(self@[a].user.id == old(self)@[a].user.id);
                        assert(self@[b].user.id == old(self)@[b].user.id);
                    }
                }
                Ok(())
            },
            None => Err(AuthError::NotFound),
        }
    }
}

} // verus!
