//! Users, their personal access tokens, and the connected clients.

use crate::permissions::Permissions;
use crate::streaming::registry::Resource;
use crate::users::UserStatus;
use vstd::prelude::*;

verus! {

/// A user account.
#[derive(Debug)]
pub struct User {
    /// Id of the user.
    pub id: u32,
    /// Name of the user, unique among the users.
    pub username: Vec<u8>,
    /// Password of the user.
    pub password: Vec<u8>,
    /// Whether the user may log in.
    pub status: UserStatus,
    /// What the user may do; `None` grants nothing.
    pub permissions: Option<Permissions>,
}

impl Resource for User {
    open spec fn spec_id(&self) -> u32 {
        self.id
    }

    open spec fn spec_name(&self) -> Seq<u8> {
        self.username@
    }

    fn id(&self) -> (r: u32) {
        self.id
    }

    fn name(&self) -> (r: &Vec<u8>) {
        &self.username
    }
}

/// A personal access token: a secret that logs its owner in without a
/// password.
#[derive(Debug)]
pub struct PersonalAccessToken {
    /// Id of the user that the token belongs to.
    pub user_id: u32,
    /// Name of the token, unique among the tokens of its owner.
    pub name: Vec<u8>,
    /// The secret itself.
    pub token: Vec<u8>,
    /// The time from which on the token is no longer accepted; `None` for
    /// never.
    pub expiry: Option<u64>,
}

impl PersonalAccessToken {
    /// Tells whether the token has expired at the time `now`.
    pub open spec fn expired(self, now: u64) -> bool {
        self.expiry is Some && self.expiry->Some_0 <= now
    }

    /// Tells whether the token has expired at the time `now`.
    pub fn is_expired(&self, now: u64) -> (r: bool)
        ensures
            r == self.expired(now),
    {
        match self.expiry {
            Some(at) => at <= now,
            None => false,
        }
    }
}

/// A connected client.
#[derive(Debug, Clone, Copy, PartialEq, Eq, Structural)]
pub struct Client {
    /// Id of the client.
    pub client_id: u32,
    /// Id of the user that is logged in on the connection, if any.
    pub user_id: Option<u32>,
}

/// No two tokens of one user share a name, and no two tokens at all share
/// their secret.
pub open spec fn distinct_tokens(tokens: Seq<PersonalAccessToken>) -> bool {
    forall|i: int, j: int|
        0 <= i < j < tokens.len() ==> (#[trigger] tokens[i]).token@ != (#[trigger] tokens[j]).token@
            && !(tokens[i].user_id == tokens[j].user_id && tokens[i].name@ == tokens[j].name@)
}

/// No two clients share an id.
pub open spec fn distinct_clients(clients: Seq<Client>) -> bool {
    forall|i: int, j: int|
        0 <= i < j < clients.len() ==> (#[trigger] clients[i]).client_id != (
        #[trigger] clients[j]).client_id
}

/// Tells whether a token with the secret exists.
pub open spec fn has_secret(tokens: Seq<PersonalAccessToken>, secret: Seq<u8>) -> bool {
    exists|i: int| 0 <= i < tokens.len() && (#[trigger] tokens[i]).token@ == secret
}

/// The index of the token with the secret.
pub open spec fn index_of_secret(tokens: Seq<PersonalAccessToken>, secret: Seq<u8>) -> int {
    choose|i: int| 0 <= i < tokens.len() && (#[trigger] tokens[i]).token@ == secret
}

/// Tells whether the user has a token of the name.
pub open spec fn has_token(tokens: Seq<PersonalAccessToken>, user_id: u32, name: Seq<u8>) -> bool {
    exists|i: int|
        0 <= i < tokens.len() && (#[trigger] tokens[i]).user_id == user_id && tokens[i].name@
            == name
}

/// The index of the token of the name that the user has.
pub open spec fn index_of_token(tokens: Seq<PersonalAccessToken>, user_id: u32, name: Seq<u8>) -> int {
    choose|i: int|
        0 <= i < tokens.len() && (#[trigger] tokens[i]).user_id == user_id && tokens[i].name@
            == name
}

/// Tells whether a client with the id is connected.
pub open spec fn has_client(clients: Seq<Client>, client_id: u32) -> bool {
    exists|i: int| 0 <= i < clients.len() && (#[trigger] clients[i]).client_id == client_id
}

/// The index of the client with the id.
pub open spec fn index_of_client(clients: Seq<Client>, client_id: u32) -> int {
    choose|i: int| 0 <= i < clients.len() && (#[trigger] clients[i]).client_id == client_id
}

/// Where tokens are distinct, a token is found under its own secret and
/// under its own owner and name at its own index.
pub proof fn lemma_token_located(tokens: Seq<PersonalAccessToken>, i: int)
    requires
        distinct_tokens(tokens),
        0 <= i < tokens.len(),
    ensures
        has_secret(tokens, tokens[i].token@),
        index_of_secret(tokens, tokens[i].token@) == i,
        has_token(tokens, tokens[i].user_id, tokens[i].name@),
        index_of_token(tokens, tokens[i].user_id, tokens[i].name@) == i,
{
    let j = index_of_secret(tokens, tokens[i].token@);
    if i < j {
        assert(tokens[i].token@ != tokens[j].token@);
    }
    if j < i {
        assert(tokens[j].token@ != tokens[i].token@);
    }
    let k = index_of_token(tokens, tokens[i].user_id, tokens[i].name@);
    if i < k {
        assert(tokens[i].token@ != tokens[k].token@);
    }
    if k < i {
        assert(tokens[k].token@ != tokens[i].token@);
    }
}

/// Where client ids are unique, a client is found under its own id at its
/// own index.
pub proof fn lemma_client_located(clients: Seq<Client>, i: int)
    requires
        distinct_clients(clients),
        0 <= i < clients.len(),
    ensures
        has_client(clients, clients[i].client_id),
        index_of_client(clients, clients[i].client_id) == i,
{
    let j = index_of_client(clients, clients[i].client_id);
    if i < j {
        assert(clients[i].client_id != clients[j].client_id);
    }
    if j < i {
        assert(clients[j].client_id != clients[i].client_id);
    }
}

} // verus!
