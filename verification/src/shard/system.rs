//! The clients of a shard, and figures about it.

use crate::error::IggyError;
use crate::permissions::Action;
use crate::shard::users::only_clients;
use crate::shard::IggyShard;
use crate::streaming::session::Session;
use crate::streaming::user::distinct_clients;
use crate::streaming::user::has_client;
use crate::streaming::user::index_of_client;
use crate::streaming::user::lemma_client_located;
use crate::streaming::user::Client;
use vstd::prelude::*;

verus! {

/// Figures about a shard.
#[derive(Debug, Clone, Copy, PartialEq, Eq, Structural)]
pub struct Stats {
    /// Number of streams.
    pub streams_count: u64,
    /// Number of users.
    pub users_count: u64,
    /// Number of personal access tokens.
    pub tokens_count: u64,
    /// Number of connected clients.
    pub clients_count: u64,
}

/// The largest client id among the clients, or 0 where there are none.
pub open spec fn max_client_id(clients: Seq<Client>) -> u32
    decreases clients.len(),
{
    if clients.len() == 0 {
        0
    } else if clients.last().client_id > max_client_id(clients.drop_last()) {
        clients.last().client_id
    } else {
        max_client_id(clients.drop_last())
    }
}

/// No client has an id above the largest one.
pub proof fn lemma_max_client_id(clients: Seq<Client>, i: int)
    requires
        0 <= i < clients.len(),
    ensures
        clients[i].client_id <= max_client_id(clients),
    decreases clients.len(),
{
    if i < clients.len() - 1 {
        lemma_max_client_id(clients.drop_last(), i);
    }
}

impl IggyShard {
    /// The figures about the shard.
    pub open spec fn spec_stats(self) -> Stats {
        Stats {
            streams_count: self.streams@.len() as u64,
            users_count: self.users@.len() as u64,
            tokens_count: self.tokens@.len() as u64,
            clients_count: self.clients@.len() as u64,
        }
    }

    /// Figures about the shard.  The session needs the right to read the
    /// servers.
    pub fn get_stats(&self, session: &Session) -> (r: Result<Stats, IggyError>)
        ensures
            match session.verdict(Some(Action::ReadServers)) {
                Ok(_) => r == Ok::<Stats, IggyError>(self.spec_stats()),
                Err(e) => r == Err::<Stats, IggyError>(e),
            },
    {
        session.authorize(Some(Action::ReadServers))?;
        Ok(
            Stats {
                streams_count: self.streams.len() as u64,
                users_count: self.users.len() as u64,
                tokens_count: self.tokens.len() as u64,
                clients_count: self.clients.len() as u64,
            },
        )
    }

    /// Takes in a new connection: the client gets one more than the largest
    /// client id in use, and a session on which nobody is logged in.  Where no
    /// id is left the result is `ResourceBusy` and nothing changes.
    pub fn add_client(&mut self) -> (r: Result<Session, IggyError>)
        requires
            old(self).wf(),
        ensures
            final(self).wf(),
            if max_client_id(old(self).clients@) == u32::MAX {
                r == Err::<Session, IggyError>(IggyError::ResourceBusy) && *final(self) == *old(
                    self,
                )
            } else {
                let id = (max_client_id(old(self).clients@) + 1) as u32;
                &&& r == Ok::<Session, IggyError>(Session::anonymous(id))
                &&& only_clients(*old(self), *final(self))
                &&& final(self).clients@ == old(self).clients@.push(
                    Client { client_id: id, user_id: None },
                )
            },
    {
        let mut largest: u32 = 0;
        let mut i: usize = 0;
        while i < self.clients.len()
            invariant
                i <= self.clients@.len(),
                largest == max_client_id(self.clients@.take(i as int)),
            decreases self.clients@.len() - i,
        {
            proof {
                assert(self.clients@.take(i + 1).drop_last() =~= self.clients@.take(i as int));
            }
            if self.clients[i].client_id > largest {
                largest = self.clients[i].client_id;
            }
            i += 1;
        }
        proof {
            assert(self.clients@.take(i as int) =~= self.clients@);
        }
        if largest == u32::MAX {
            return Err(IggyError::ResourceBusy);
        }
        let id = largest + 1;
        let ghost before = self.clients@;
        self.clients.push(Client { client_id: id, user_id: None });
        proof {
            let after = self.clients@;
            assert forall|a: int, b: int| 0 <= a < b < after.len() implies (
            #[trigger] after[a]).client_id != (#[trigger] after[b]).client_id by {
                if b < before.len() {
                    assert(before[a].client_id != before[b].client_id);
                } else {
                    lemma_max_client_id(before, a);
                }
            }
        }
        Ok(Session::new(id))
    }

    /// Forgets a client whose connection has ended.  Where no client has
    /// the id the result is `NotFound` and nothing changes.
    pub fn delete_client(&mut self, client_id: u32) -> (r: Result<(), IggyError>)
        requires
            old(self).wf(),
        ensures
            final(self).wf(),
            if has_client(old(self).clients@, client_id) {
                r is Ok && only_clients(*old(self), *final(self)) && final(self).clients@ == old(
                    self,
                ).clients@.remove(index_of_client(old(self).clients@, client_id))
            } else {
                r == Err::<(), IggyError>(IggyError::NotFound) && *final(self) == *old(self)
            },
    {
        let i = match self.find_client(client_id) {
            Some(i) => i,
            None => { return Err(IggyError::NotFound); },
        };
        let ghost before = self.clients@;
        self.clients.remove(i);
        proof {
            let after = self.clients@;
            assert forall|a: int, b: int| 0 <= a < b < after.len() implies (
            #[trigger] after[a]).client_id != (#[trigger] after[b]).client_id by {
                let x = if a < i { a } else { a + 1 };
                let y = if b < i { b } else { b + 1 };
                assert(after[a] == before[x]);
                assert(after[b] == before[y]);
                assert(before[x].client_id != before[y].client_id);
            }
        }
        Ok(())
    }

    /// Finds the client with the id.
    pub fn find_client(&self, client_id: u32) -> (r: Option<usize>)
        requires
            distinct_clients(self.clients@),
        ensures
            match r {
                Some(i) => has_client(self.clients@, client_id) && index_of_client(
                    self.clients@,
                    client_id,
                ) == i && i < self.clients@.len(),
                None => !has_client(self.clients@, client_id),
            },
    {
        let mut i: usize = 0;
        while i < self.clients.len()
            invariant
                i <= self.clients@.len(),
                distinct_clients(self.clients@),
                forall|k: int| 0 <= k < i ==> (#[trigger] self.clients@[k]).client_id != client_id,
            decreases self.clients@.len() - i,
        {
            if self.clients[i].client_id == client_id {
                proof {
                    lemma_client_located(self.clients@, i as int);
                }
                return Some(i);
            }
            i += 1;
        }
        None
    }

    /// What is known of a client.  With a permission given, the session
    /// needs it; without, a logged-in user is enough.  Where no client has the
    /// id the result is `NotFound`.
    pub fn get_client(&self, session: &Session, needed: Option<Action>, client_id: u32) -> (r:
        Result<Client, IggyError>)
        requires
            self.wf(),
        ensures
            match session.verdict(needed) {
                Err(e) => r == Err::<Client, IggyError>(e),
                Ok(_) => if has_client(self.clients@, client_id) {
                    r == Ok::<Client, IggyError>(
                        self.clients@[index_of_client(self.clients@, client_id)],
                    )
                } else {
                    r == Err::<Client, IggyError>(IggyError::NotFound)
                },
            },
    {
        session.authorize(needed)?;
        match self.find_client(client_id) {
            Some(i) => Ok(self.clients[i]),
            None => Err(IggyError::NotFound),
        }
    }

    /// Checks that the session may read the list of clients.
    pub fn get_clients(&self, session: &Session) -> (r: Result<(), IggyError>)
        ensures
            r == session.verdict(Some(Action::ReadServers)),
    {
        session.authorize(Some(Action::ReadServers))
    }
}

} // verus!
