//! The configuration that a deployment is set up from.

use vstd::prelude::*;
use crate::authority::{AuthorityView, TokenAuthority};
use crate::database::{RecordView, UserDB};
use crate::host::{parse_host, parse_host_addr};
use crate::service::AuthService;
use crate::sessions::Table;

verus! {

/// The whole configuration.
#[derive(Clone, Debug, PartialEq, Eq)]
pub struct Config {
    pub main: MainConfig,
    pub database: DatabaseConfig,
    pub token: TokenConfig,
    pub hash: HashConfig,
}

/// Where the server listens.
#[derive(Clone, Debug, PartialEq, Eq)]
pub struct MainConfig {
    /// An IPv4 address in dotted decimal form.
    pub host: String,
    pub port: u16,
}

/// Where the users are persisted.
#[derive(Clone, Debug, PartialEq, Eq)]
pub struct DatabaseConfig {
    pub path: String,
}

/// The kind of session token that the deployment issues.
#[derive(Clone, Copy, Debug, PartialEq, Eq, Structural)]
pub enum TokenKind {
    Signed,
    Opaque,
}

/// How session tokens are issued.
#[derive(Clone, Debug, PartialEq, Eq)]
pub struct TokenConfig {
    pub kind: TokenKind,
    /// The signing secret of signed tokens.
    pub secret: String,
    /// The number of seconds for which a signed token is valid.
    pub duration: i64,
}

/// How passwords are hashed.
#[derive(Clone, Debug, PartialEq, Eq)]
pub struct HashConfig {
    /// The work factor of the hash.
    pub cost: u32,
}

impl MainConfig {
    /// The four numbers of the listen address; `None` where `host` is not a
    /// dotted IPv4 address.
    pub fn host_addr(&self) -> (r: Option<[u8; 4]>)
        ensures
            match parse_host(self.host@) {
                Some(quad) => r matches Some(addr) && addr@ == quad,
                None => r is None,
            },
    {
        parse_host_addr(self.host.as_str())
    }
}

impl Config {
    /// The token authority that the configuration asks for, as contracts
    /// see it.
    pub open spec fn authority(&self) -> AuthorityView {
        match self.token.kind {
            TokenKind::Signed => AuthorityView::Signed {
                secret: self.token.secret@,
                duration: self.token.duration as int,
            },
            TokenKind::Opaque => AuthorityView::Opaque { table: Table::empty() },
        }
    }

    /// A service with no user and no active token, set up as the
    /// configuration says.
    pub fn service(&self) -> (service: AuthService)
        ensures
            service.wf(),
            service.users@ == Seq::<RecordView>::empty(),
            service.users.cost() == self.hash.cost,
            service.tokens@ == self.authority(),
    {
        let tokens = match self.token.kind {
            TokenKind::Signed => TokenAuthority::signed(
                self.token.secret.clone(),
                self.token.duration,
            ),
            TokenKind::Opaque => TokenAuthority::opaque(),
        };
        AuthService::new(UserDB::new(self.hash.cost), tokens)
    }
}

} // verus!
