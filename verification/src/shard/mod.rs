//! One shard of the broker: the slice of the index that it owns, and the
//! operations that the executor performs on it.

pub mod groups;
pub mod handler;
pub mod messages;
pub mod router;
pub mod storage;
pub mod streams;
pub mod system;
pub mod topics;
pub mod users;

use crate::error::IggyError;
use crate::identifier::Identifier;
use crate::identifier::IdentifierView;
use crate::permissions::Action;
use crate::shard::storage::StorageRequest;
use crate::streaming::registry::all_distinct;
use crate::streaming::registry::distinct;
use crate::wire::same_bytes;
use crate::streaming::registry::find;
use crate::streaming::registry::locate;
use crate::streaming::session::Session;
use crate::streaming::stream::topic_changed;
use crate::streaming::stream::Stream;
use crate::streaming::registry::lemma_updated_distinct;
use crate::streaming::user::distinct_clients;
use crate::streaming::user::distinct_tokens;
use crate::streaming::user::Client;
use crate::streaming::user::PersonalAccessToken;
use crate::streaming::user::User;
use vstd::prelude::*;

verus! {

/// What the executor is handed from outside for one command: the time, and
/// fresh secret material for a personal access token.
#[derive(Debug)]
pub struct Environment {
    /// The current time, in seconds.
    pub now: u64,
    /// Random bytes for the secret of a new personal access token.
    pub token: Vec<u8>,
}

/// One shard: it owns its streams with everything beneath them, and, where
/// it is the control shard, the users and their tokens.  The clients are
/// those whose connections it accepted.
#[derive(Debug)]
pub struct IggyShard {
    /// Id of the shard, from 0.
    pub id: u32,
    /// The streams that the shard owns.
    pub streams: Vec<Stream>,
    /// The users.
    pub users: Vec<User>,
    /// The personal access tokens of the users.
    pub tokens: Vec<PersonalAccessToken>,
    /// The connected clients.
    pub clients: Vec<Client>,
    /// The requests to the storage layer that are pending, oldest first.
    pub outbox: Vec<StorageRequest>,
}

/// The id of the shard, the users, the tokens and the clients are the same
/// in the two states.
pub open spec fn tables_kept(before: IggyShard, after: IggyShard) -> bool {
    &&& after.id == before.id
    &&& after.users == before.users
    &&& after.tokens == before.tokens
    &&& after.clients == before.clients
}

/// Nothing but the streams differs between the two states; in particular
/// nothing was asked of the storage layer.
pub open spec fn only_streams(before: IggyShard, after: IggyShard) -> bool {
    tables_kept(before, after) && after.outbox == before.outbox
}

/// The streams other than the one at index `si` are the same in the two
/// states, and that one has kept its id.
pub open spec fn stream_kept(before: IggyShard, after: IggyShard, si: int) -> bool {
    &&& after.streams@.len() == before.streams@.len()
    &&& forall|j: int|
        0 <= j < before.streams@.len() && j != si ==> after.streams@[j] == before.streams@[j]
    &&& after.streams@[si].id == before.streams@[si].id
}

/// The topics other than the one at index `ti` of the stream at index `si`
/// are the same in the two states, and that one has kept its id and its
/// name.
pub open spec fn topic_kept(before: IggyShard, after: IggyShard, si: int, ti: int) -> bool {
    &&& stream_kept(before, after, si)
    &&& topic_changed(before.streams@[si], after.streams@[si], ti)
    &&& after.streams@[si].topics@[ti].id == before.streams@[si].topics@[ti].id
    &&& after.streams@[si].topics@[ti].name == before.streams@[si].topics@[ti].name
}

/// The two streams have the same id, name and topics.
pub open spec fn same_stream(before: Stream, after: Stream) -> bool {
    &&& after.id == before.id
    &&& after.name == before.name
    &&& after.topics@ == before.topics@
}

/// Nothing differs between the two states: the same streams with the same
/// topics, the same users, tokens and clients.
pub open spec fn unchanged(before: IggyShard, after: IggyShard) -> bool {
    &&& only_streams(before, after)
    &&& after.streams@.len() == before.streams@.len()
    &&& forall|i: int|
        0 <= i < before.streams@.len() ==> same_stream(before.streams@[i], #[trigger] after.streams@[i])
}

/// Nothing but the stream at index `si` differs between the two states, and
/// that stream has kept its id.
pub open spec fn only_stream(before: IggyShard, after: IggyShard, si: int) -> bool {
    only_streams(before, after) && stream_kept(before, after, si)
}

/// Nothing but the topic at index `ti` of the stream at index `si` differs
/// between the two states, and that topic has kept its id and its name.
pub open spec fn only_topic(before: IggyShard, after: IggyShard, si: int, ti: int) -> bool {
    only_streams(before, after) && topic_kept(before, after, si, ti)
}

impl IggyShard {
    /// Streams and users have unique ids and names, tokens and clients are
    /// distinct, and every stream is well-formed.
    pub open spec fn wf(self) -> bool {
        &&& distinct(self.streams@)
        &&& forall|i: int| 0 <= i < self.streams@.len() ==> (#[trigger] self.streams@[i]).wf()
        &&& distinct(self.users@)
        &&& distinct_tokens(self.tokens@)
        &&& distinct_clients(self.clients@)
    }

    /// The indexes of the stream and of the topic in it that the two
    /// identifiers name, if both exist.
    pub open spec fn topic_at(self, stream_id: IdentifierView, topic_id: IdentifierView) -> Option<
        (int, int),
    > {
        match locate(self.streams@, stream_id) {
            Some(si) => match locate(self.streams@[si].topics@, topic_id) {
                Some(ti) => Some((si, ti)),
                None => None,
            },
            None => None,
        }
    }

    /// Whether an operation on a stream is admitted: the verdict on the
    /// session comes first, then the stream must exist.
    pub open spec fn admit_stream(self, session: Session, needed: Action, stream_id: IdentifierView) -> Result<
        int,
        IggyError,
    > {
        match session.verdict(Some(needed)) {
            Err(e) => Err(e),
            Ok(_) => match locate(self.streams@, stream_id) {
                Some(si) => Ok(si),
                None => Err(IggyError::NotFound),
            },
        }
    }

    /// Whether an operation on a topic is admitted: the verdict on the
    /// session comes first, then stream and topic must exist.
    pub open spec fn admit_topic(
        self,
        session: Session,
        needed: Action,
        stream_id: IdentifierView,
        topic_id: IdentifierView,
    ) -> Result<(int, int), IggyError> {
        match session.verdict(Some(needed)) {
            Err(e) => Err(e),
            Ok(_) => match self.topic_at(stream_id, topic_id) {
                Some(found) => Ok(found),
                None => Err(IggyError::NotFound),
            },
        }
    }

    /// Tells whether the shard is well-formed.
    pub fn is_valid(&self) -> (r: bool)
        ensures
            r == self.wf(),
    {
        if !all_distinct(&self.streams) || !all_distinct(&self.users) {
            return false;
        }
        let n = self.streams.len();
        let mut i: usize = 0;
        while i < n
            invariant
                i <= n,
                n == self.streams@.len(),
                forall|k: int| 0 <= k < i ==> (#[trigger] self.streams@[k]).wf(),
            decreases n - i,
        {
            if !self.streams[i].is_valid() {
                proof {
                    assert(!self.streams@[i as int].wf());
                }
                return false;
            }
            i += 1;
        }
        let t = self.tokens.len();
        let mut a: usize = 0;
        while a < t
            invariant
                a <= t,
                t == self.tokens@.len(),
                forall|x: int, y: int|
                    0 <= x < y < t && x < a ==> (#[trigger] self.tokens@[x]).token@ != (
                    #[trigger] self.tokens@[y]).token@ && !(self.tokens@[x].user_id
                        == self.tokens@[y].user_id && self.tokens@[x].name@ == self.tokens@[y].name@),
            decreases t - a,
        {
            let mut b: usize = a + 1;
            while b < t
                invariant
                    a < b <= t,
                    t == self.tokens@.len(),
                    forall|y: int|
                        a < y < b ==> self.tokens@[a as int].token@ != (
                        #[trigger] self.tokens@[y]).token@ && !(self.tokens@[a as int].user_id
                            == self.tokens@[y].user_id && self.tokens@[a as int].name@
                            == self.tokens@[y].name@),
                decreases t - b,
            {
                let first = &self.tokens[a];
                let second = &self.tokens[b];
                if same_bytes(first.token.as_slice(), second.token.as_slice()) || (first.user_id
                    == second.user_id && same_bytes(first.name.as_slice(), second.name.as_slice())) {
                    proof {
                        assert(!(self.tokens@[a as int].token@ != self.tokens@[b as int].token@
                            && !(self.tokens@[a as int].user_id == self.tokens@[b as int].user_id
                            && self.tokens@[a as int].name@ == self.tokens@[b as int].name@)));
                    }
                    return false;
                }
                b += 1;
            }
            a += 1;
        }
        let c = self.clients.len();
        let mut x: usize = 0;
        while x < c
            invariant
                x <= c,
                c == self.clients@.len(),
                forall|p: int, q: int|
                    0 <= p < q < c && p < x ==> (#[trigger] self.clients@[p]).client_id != (
                    #[trigger] self.clients@[q]).client_id,
            decreases c - x,
        {
            let mut y: usize = x + 1;
            while y < c
                invariant
                    x < y <= c,
                    c == self.clients@.len(),
                    forall|q: int|
                        x < q < y ==> self.clients@[x as int].client_id != (
                        #[trigger] self.clients@[q]).client_id,
                decreases c - y,
            {
                if self.clients[x].client_id == self.clients[y].client_id {
                    return false;
                }
                y += 1;
            }
            x += 1;
        }
        true
    }

    /// A shard that owns nothing yet.
    pub fn new(id: u32) -> (r: IggyShard)
        ensures
            r.wf(),
            r.id == id,
            r.streams@.len() == 0,
            r.users@.len() == 0,
            r.tokens@.len() == 0,
            r.clients@.len() == 0,
            r.outbox@.len() == 0,
    {
        IggyShard {
            id,
            streams: Vec::new(),
            users: Vec::new(),
            tokens: Vec::new(),
            clients: Vec::new(),
            outbox: Vec::new(),
        }
    }

    /// Checks the session and finds the stream.
    pub fn enter_stream(&self, session: &Session, needed: Action, stream_id: &Identifier) -> (r:
        Result<usize, IggyError>)
        requires
            self.wf(),
        ensures
            match r {
                Ok(si) => self.admit_stream(*session, needed, stream_id@) == Ok::<int, IggyError>(
                    si as int,
                ) && si < self.streams@.len(),
                Err(e) => self.admit_stream(*session, needed, stream_id@) == Err::<
                    int,
                    IggyError,
                >(e),
            },
    {
        session.authorize(Some(needed))?;
        match find(&self.streams, stream_id) {
            Some(si) => Ok(si),
            None => Err(IggyError::NotFound),
        }
    }

    /// Checks the session and finds the stream and the topic.
    pub fn enter_topic(
        &self,
        session: &Session,
        needed: Action,
        stream_id: &Identifier,
        topic_id: &Identifier,
    ) -> (r: Result<(usize, usize), IggyError>)
        requires
            self.wf(),
        ensures
            match r {
                Ok((si, ti)) => self.admit_topic(*session, needed, stream_id@, topic_id@) == Ok::<
                    (int, int),
                    IggyError,
                >((si as int, ti as int)) && si < self.streams@.len() && ti
                    < self.streams@[si as int].topics@.len(),
                Err(e) => self.admit_topic(*session, needed, stream_id@, topic_id@) == Err::<
                    (int, int),
                    IggyError,
                >(e),
            },
    {
        session.authorize(Some(needed))?;
        let si = match find(&self.streams, stream_id) {
            Some(si) => si,
            None => { return Err(IggyError::NotFound); },
        };
        match find(&self.streams[si].topics, topic_id) {
            Some(ti) => Ok((si, ti)),
            None => Err(IggyError::NotFound),
        }
    }
}

/// Where the one topic that an operation touched is as it was, nothing has
/// changed.
pub proof fn lemma_untouched(before: IggyShard, after: IggyShard, si: int, ti: int)
    requires
        0 <= si < before.streams@.len(),
        0 <= ti < before.streams@[si].topics@.len(),
        only_topic(before, after, si, ti),
        after.streams@[si].topics@[ti] == before.streams@[si].topics@[ti],
    ensures
        unchanged(before, after),
{
    assert(after.streams@[si].topics@ =~= before.streams@[si].topics@);
}

/// A change to one stream that keeps its id and name and leaves it
/// well-formed leaves the shard well-formed.
pub proof fn lemma_stream_change_keeps_wf(before: IggyShard, after: IggyShard, si: int)
    requires
        before.wf(),
        0 <= si < before.streams@.len(),
        tables_kept(before, after),
        stream_kept(before, after, si),
        after.streams@[si].name@ == before.streams@[si].name@,
        after.streams@[si].wf(),
    ensures
        after.wf(),
{
    lemma_updated_distinct(before.streams@, after.streams@, si);
    assert forall|i: int| 0 <= i < after.streams@.len() implies (#[trigger] after.streams@[i]).wf() by {
        if i != si {
            assert(after.streams@[i] == before.streams@[i]);
        }
    }
}

/// A change to one topic that keeps its id and name and leaves it
/// well-formed leaves the shard well-formed.
pub proof fn lemma_topic_change_keeps_wf(before: IggyShard, after: IggyShard, si: int, ti: int)
    requires
        before.wf(),
        0 <= si < before.streams@.len(),
        0 <= ti < before.streams@[si].topics@.len(),
        tables_kept(before, after),
        topic_kept(before, after, si, ti),
        after.streams@[si].topics@[ti].wf(),
    ensures
        after.wf(),
{
    let old_stream = before.streams@[si];
    let new_stream = after.streams@[si];
    assert(old_stream.wf());
    lemma_updated_distinct(old_stream.topics@, new_stream.topics@, ti);
    assert forall|j: int| 0 <= j < new_stream.topics@.len() implies (
    #[trigger] new_stream.topics@[j]).wf() by {
        if j != ti {
            assert(new_stream.topics@[j] == old_stream.topics@[j]);
        }
    }
    lemma_stream_change_keeps_wf(before, after, si);
}

} // verus!
