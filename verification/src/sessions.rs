//! Opaque session tokens: a table, held in memory, from each active token to
//! the user it was issued to. A token is valid while it is in the table, and
//! revoking removes it for good.

use vstd::prelude::*;
use crate::error::AuthError;
use crate::text::text_view;
use crate::ident::random_uuid;

verus! {

/// The table as contracts see it: token to user identifier.
pub type Table = Map<Seq<char>, Seq<char>>;

/// The user that a token stands for.
pub open spec fn table_validate(table: Table, token: Seq<char>) -> Option<Seq<char>> {
    if table.contains_key(token) {
        Some(table[token])
    } else {
        None
    }
}

/// What revoking a token answers.
pub open spec fn revoke_outcome(table: Table, token: Seq<char>) -> Result<(), AuthError> {
    if table.contains_key(token) {
        Ok(())
    } else {
        Err(AuthError::NotFound)
    }
}

/// The table after a token was revoked.
pub open spec fn table_revoke(table: Table, token: Seq<char>) -> Table {
    table.remove(token)
}

/// The table after a token was issued to a user.
pub open spec fn table_issue(table: Table, token: Seq<char>, user_id: Seq<char>) -> Table {
    table.insert(token, user_id)
}

/// A token validates to its user right after it was issued; once revoked it
/// validates to nobody, and revoking it again reports `NotFound`.
pub proof fn lemma_token_round_trip(table: Table, token: Seq<char>, user_id: Seq<char>)
    ensures
        table_validate(table_issue(table, token, user_id), token) == Some(user_id),
        table_validate(table_revoke(table, token), token) is None,
        revoke_outcome(table_revoke(table, token), token) == Err::<(), AuthError>(
            AuthError::NotFound,
        ),
{
}

/// Issuing or revoking one token leaves every other token as it was.
pub proof fn lemma_other_tokens_untouched(
    table: Table,
    token: Seq<char>,
    user_id: Seq<char>,
    other: Seq<char>,
)
    requires
        other != token,
    ensures
        table_validate(table_issue(table, token, user_id), other) == table_validate(table, other),
        table_validate(table_revoke(table, token), other) == table_validate(table, other),
{
}

/// One active token.
struct Session {
    token: String,
    user_id: String,
}

spec fn has_token(entries: Seq<Session>, token: Seq<char>) -> bool {
    exists|i: int| 0 <= i < entries.len() && (#[trigger] entries[i]).token@ == token
}

spec fn index_of(entries: Seq<Session>, token: Seq<char>) -> int {
    choose|i: int| 0 <= i < entries.len() && (#[trigger] entries[i]).token@ == token
}

spec fn distinct_tokens(entries: Seq<Session>) -> bool {
    forall|i: int, j: int|
        0 <= i < j < entries.len() ==> (#[trigger] entries[i]).token@ != (
        #[trigger] entries[j]).token@
}

spec fn table_of(entries: Seq<Session>) -> Table {
    Map::new(
        |token: Seq<char>| has_token(entries, token),
        |token: Seq<char>| entries[index_of(entries, token)].user_id@,
    )
}

proof fn lemma_entry_in_table(entries: Seq<Session>, i: int)
    requires
        distinct_tokens(entries),
        0 <= i < entries.len(),
    ensures
        table_of(entries).contains_key(entries[i].token@),
        table_of(entries)[entries[i].token@] == entries[i].user_id@,
        index_of(entries, entries[i].token@) == i,
{
    let token = entries[i].token@;
    assert(has_token(entries, token));
    let k = index_of(entries, token);
    if k < i {
        assert(entries[k].token@ != entries[i].token@);
    }
    if i < k {
        assert(entries[i].token@ != entries[k].token@);
    }
}

proof fn lemma_push_is_insert(entries: Seq<Session>, added: Session)
    requires
        distinct_tokens(entries),
        !has_token(entries, added.token@),
    ensures
        distinct_tokens(entries.push(added)),
        table_of(entries.push(added)) == table_of(entries).insert(added.token@, added.user_id@),
{
    let grown = entries.push(added);
    assert forall|i: int, j: int| 0 <= i < j < grown.len() implies (#[trigger] grown[i]).token@ != (
    #[trigger] grown[j]).token@ by {
        if j == entries.len() {
            assert(grown[i] == entries[i]);
        } else {
            assert(grown[i] == entries[i] && grown[j] == entries[j]);
        }
    }
    assert forall|token: Seq<char>|
        has_token(grown, token) <==> (has_token(entries, token) || token == added.token@) by {
        if has_token(grown, token) {
            let k = index_of(grown, token);
            if k < entries.len() {
                assert(entries[k] == grown[k]);
            }
        }
        if has_token(entries, token) {
            let k = index_of(entries, token);
            assert(grown[k] == entries[k]);
        }
        if token == added.token@ {
            assert(grown[entries.len() as int] == added);
        }
    }
    assert forall|token: Seq<char>| has_token(grown, token) implies table_of(grown)[token]
        == table_of(entries).insert(added.token@, added.user_id@)[token] by {
        let k = index_of(grown, token);
        lemma_entry_in_table(grown, k);
        if k < entries.len() {
            assert(grown[k] == entries[k]);
            lemma_entry_in_table(entries, k);
        }
    }
    assert(table_of(grown) =~= table_of(entries).insert(added.token@, added.user_id@));
}

proof fn lemma_remove_is_remove(entries: Seq<Session>, i: int)
    requires
        distinct_tokens(entries),
        0 <= i < entries.len(),
    ensures
        distinct_tokens(entries.remove(i)),
        table_of(entries.remove(i)) == table_of(entries).remove(entries[i].token@),
{
    let rest = entries.remove(i);
    let gone = entries[i].token@;
    assert forall|a: int, b: int| 0 <= a < b < rest.len() implies (#[trigger] rest[a]).token@ != (
    #[trigger] rest[b]).token@ by {
        let a0 = if a < i { a } else { a + 1 };
        let b0 = if b < i { b } else { b + 1 };
        assert(rest[a] == entries[a0] && rest[b] == entries[b0]);
    }
    assert forall|token: Seq<char>|
        has_token(rest, token) <==> (has_token(entries, token) && token != gone) by {
        if has_token(rest, token) {
            let k = index_of(rest, token);
            let k0 = if k < i { k } else { k + 1 };
            assert(rest[k] == entries[k0]);
            if k0 < i {
                assert(entries[k0].token@ != entries[i].token@);
            } else {
                assert(entries[i].token@ != entries[k0].token@);
            }
        }
        if has_token(entries, token) && token != gone {
            let k = index_of(entries, token);
            let k1 = if k < i { k } else { k - 1 };
            assert(rest[k1] == entries[k]);
        }
    }
    assert forall|token: Seq<char>| has_token(rest, token) implies table_of(rest)[token]
        == table_of(entries)[token] by {
        let k = index_of(rest, token);
        let k0 = if k < i { k } else { k + 1 };
        assert(rest[k] == entries[k0]);
        lemma_entry_in_table(rest, k);
        lemma_entry_in_table(entries, k0);
    }
    assert(table_of(rest) =~= table_of(entries).remove(gone));
}

/// The table of active opaque tokens.
pub struct TokenTable {
    entries: Vec<Session>,
}

impl View for TokenTable {
    type V = Table;

    closed spec fn view(&self) -> Table {
        table_of(self.entries@)
    }
}

impl TokenTable {
    /// The table's invariant: no token is held twice, so each active token
    /// stands for exactly one user.
    pub closed spec fn wf(&self) -> bool {
        distinct_tokens(self.entries@)
    }

    /// An empty table.
    pub fn new() -> (table: TokenTable)
        ensures
            table.wf(),
            table@ == Table::empty(),
    {
        let table = TokenTable { entries: Vec::new() };
        assert(table@ =~= Table::empty());
        table
    }

    /// Where the token is held.
    fn find(&self, token: &String) -> (found: Option<usize>)
        requires
            self.wf(),
        ensures
            match found {
                Some(i) => i < self.entries@.len() && self.entries@[i as int].token@ == token@
                    && self@.contains_key(token@) && self@[token@]
                    == self.entries@[i as int].user_id@,
                None => !self@.contains_key(token@),
            },
    {
        let mut i: usize = 0;
        while i < self.entries.len()
            invariant
                self.wf(),
                i <= self.entries@.len(),
                forall|j: int| 0 <= j < i ==> (#[trigger] self.entries@[j]).token@ != token@,
            decreases self.entries@.len() - i,
        {
            if self.entries[i].token == *token {
                proof {
                    lemma_entry_in_table(self.entries@, i as int);
                }
                return Some(i);
            }
            i += 1;
        }
        None
    }

    /// Puts a token that the caller supplies into the table, for this user.
    /// A token that is already active is a `Conflict`, and the table stays
    /// as it is.
    pub fn insert(&mut self, token: String, user_id: String) -> (r: Result<(), AuthError>)
        requires
            old(self).wf(),
        ensures
            final(self).wf(),
            old(self)@.contains_key(token@) ==> r == Err::<(), AuthError>(AuthError::Conflict)
                && final(self)@ == old(self)@,
            !old(self)@.contains_key(token@) ==> r is Ok && final(self)@ == table_issue(
                old(self)@,
                token@,
                user_id@,
            ),
    {
        if self.find(&token).is_some() {
            return Err(AuthError::Conflict);
        }
        let session = Session { token, user_id };
        proof {
            lemma_push_is_insert(self.entries@, session);
        }
        self.entries.push(session);
        Ok(())
    }

    /// Issues a fresh random token to the user.
    ///
    /// The token was not active before and is the only change to the table;
    /// it validates to the user. Should the generator ever repeat an active
    /// token, the answer is `Internal` and the table stays as it is.
    pub fn issue(&mut self, user_id: String) -> (r: Result<String, AuthError>)
        requires
            old(self).wf(),
        ensures
            final(self).wf(),
            r matches Ok(token) ==> {
                &&& !old(self)@.contains_key(token@)
                &&& final(self)@ == table_issue(old(self)@, token@, user_id@)
                &&& table_validate(final(self)@, token@) == Some(user_id@)
            },
            r matches Err(e) ==> e == AuthError::Internal && final(self)@ == old(self)@,
    {
        let token = random_uuid();
        let issued = token.clone();
        match self.insert(token, user_id) {
            Ok(()) => Ok(issued),
            Err(_) => Err(AuthError::Internal),
        }
    }

    /// The user that the token stands for, if it is active. The table is
    /// not changed.
    pub fn validate(&self, token: &str) -> (r: Option<String>)
        requires
            self.wf(),
        ensures
            text_view(r) == table_validate(self@, token@),
    {
        match self.find(&token.to_owned()) {
            Some(i) => Some(self.entries[i].user_id.clone()),
            None => None,
        }
    }

    /// Removes the token from the table; `NotFound` where it is not active,
    /// as after an earlier revocation.
    pub fn revoke(&mut self, token: &str) -> (r: Result<(), AuthError>)
        requires
            old(self).wf(),
        ensures
            final(self).wf(),
            r == revoke_outcome(old(self)@, token@),
            r is Ok ==> final(self)@ == table_revoke(old(self)@, token@),
            r is Err ==> final(self)@ == old(self)@,
    {
        match self.find(&token.to_owned()) {
            Some(i) => {
                proof {
                    lemma_remove_is_remove(self.entries@, i as int);
                }
                let _ = self.entries.remove(i);
                Ok(())
            },
            None => Err(AuthError::NotFound),
        }
    }
}

} // verus!
