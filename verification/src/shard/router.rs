//! The router: which shard a command goes to.

use crate::command::Command;
use crate::error::IggyError;
use crate::identifier::IdKind;
use crate::identifier::Identifier;
use crate::identifier::IdentifierView;
use crate::system::GetMe;
use crate::system::Ping;
use crate::wire::copy_bytes;
use crate::wire::le_u32;
use crate::wire::same_bytes;
use vstd::prelude::*;

verus! {

/// The name and the number of a stream, as the router knows them.
#[derive(Debug)]
pub struct StreamName {
    /// Name of the stream.
    pub name: Vec<u8>,
    /// Numeric id of the stream.
    pub id: u32,
}

/// The shard that accepted the connection of a client.
#[derive(Debug, Clone, Copy, PartialEq, Eq, Structural)]
pub struct ClientHome {
    /// Id of the client.
    pub client_id: u32,
    /// Id of the shard.
    pub shard: u32,
}

/// Decides which shard a command goes to.  It only delivers: it executes
/// nothing and holds nothing but the number of shards, the numbers of the
/// streams by name, and the shard of each client.
#[derive(Debug)]
pub struct ShardRouter {
    /// The number of shards; their ids are `0..shards_count`.
    pub shards_count: u32,
    /// The numbers of the streams, by name.
    pub names: Vec<StreamName>,
    /// The shards of the clients.
    pub clients: Vec<ClientHome>,
}

/// The id of the control shard, which owns what is not part of a stream.
pub const CONTROL_SHARD: u32 = 0;

/// The stream that a command names, if it names one by identifier.
pub open spec fn spec_stream_of(command: Command) -> Option<IdentifierView> {
    match command {
        Command::GetStream(c) => Some(c.stream_id@),
        Command::DeleteStream(c) => Some(c.stream_id@),
        Command::UpdateStream(c) => Some(c.stream_id@),
        Command::PurgeStream(c) => Some(c.stream_id@),
        Command::GetTopic(c) => Some(c.stream_id@),
        Command::GetTopics(c) => Some(c.stream_id@),
        Command::CreateTopic(c) => Some(c.stream_id@),
        Command::DeleteTopic(c) => Some(c.stream_id@),
        Command::UpdateTopic(c) => Some(c.stream_id@),
        Command::PurgeTopic(c) => Some(c.stream_id@),
        Command::CreatePartitions(c) => Some(c.stream_id@),
        Command::DeletePartitions(c) => Some(c.stream_id@),
        Command::GetConsumerGroup(c) => Some(c.stream_id@),
        Command::GetConsumerGroups(c) => Some(c.stream_id@),
        Command::CreateConsumerGroup(c) => Some(c.stream_id@),
        Command::DeleteConsumerGroup(c) => Some(c.stream_id@),
        Command::JoinConsumerGroup(c) => Some(c.stream_id@),
        Command::LeaveConsumerGroup(c) => Some(c.stream_id@),
        Command::SendMessages(c) => Some(c.stream_id@),
        Command::PollMessages(c) => Some(c.stream_id@),
        Command::GetConsumerOffset(c) => Some(c.stream_id@),
        Command::StoreConsumerOffset(c) => Some(c.stream_id@),
        _ => None,
    }
}

/// The stream that a command names, if it names one by identifier.
pub fn stream_of(command: &Command) -> (r: Option<&Identifier>)
    ensures
        match r {
            Some(id) => spec_stream_of(*command) == Some(id@),
            None => spec_stream_of(*command) is None,
        },
{
    match command {
        Command::GetStream(c) => Some(&c.stream_id),
        Command::DeleteStream(c) => Some(&c.stream_id),
        Command::UpdateStream(c) => Some(&c.stream_id),
        Command::PurgeStream(c) => Some(&c.stream_id),
        Command::GetTopic(c) => Some(&c.stream_id),
        Command::GetTopics(c) => Some(&c.stream_id),
        Command::CreateTopic(c) => Some(&c.stream_id),
        Command::DeleteTopic(c) => Some(&c.stream_id),
        Command::UpdateTopic(c) => Some(&c.stream_id),
        Command::PurgeTopic(c) => Some(&c.stream_id),
        Command::CreatePartitions(c) => Some(&c.stream_id),
        Command::DeletePartitions(c) => Some(&c.stream_id),
        Command::GetConsumerGroup(c) => Some(&c.stream_id),
        Command::GetConsumerGroups(c) => Some(&c.stream_id),
        Command::CreateConsumerGroup(c) => Some(&c.stream_id),
        Command::DeleteConsumerGroup(c) => Some(&c.stream_id),
        Command::JoinConsumerGroup(c) => Some(&c.stream_id),
        Command::LeaveConsumerGroup(c) => Some(&c.stream_id),
        Command::SendMessages(c) => Some(&c.stream_id),
        Command::PollMessages(c) => Some(&c.stream_id),
        Command::GetConsumerOffset(c) => Some(&c.stream_id),
        Command::StoreConsumerOffset(c) => Some(&c.stream_id),
        _ => None,
    }
}

/// Tells whether the router knows a stream of the name.
pub open spec fn knows_name(names: Seq<StreamName>, name: Seq<u8>) -> bool {
    exists|i: int| 0 <= i < names.len() && (#[trigger] names[i]).name@ == name
}

/// The number of the stream of the name.
pub open spec fn number_of(names: Seq<StreamName>, name: Seq<u8>) -> u32 {
    names[choose|i: int| 0 <= i < names.len() && (#[trigger] names[i]).name@ == name].id
}

/// Tells whether the router knows the client.
pub open spec fn knows_client(clients: Seq<ClientHome>, client_id: u32) -> bool {
    exists|i: int| 0 <= i < clients.len() && (#[trigger] clients[i]).client_id == client_id
}

/// The shard of the client.
pub open spec fn home_of(clients: Seq<ClientHome>, client_id: u32) -> u32 {
    clients[choose|i: int| 0 <= i < clients.len() && (#[trigger] clients[i]).client_id == client_id].shard
}

impl ShardRouter {
    /// There is at least one shard, no name and no client is recorded
    /// twice, and every client is at home on one of the shards.
    pub open spec fn wf(self) -> bool {
        &&& self.shards_count >= 1
        &&& forall|i: int, j: int|
            0 <= i < j < self.names@.len() ==> (#[trigger] self.names@[i]).name@ != (
            #[trigger] self.names@[j]).name@
        &&& forall|i: int, j: int|
            0 <= i < j < self.clients@.len() ==> (#[trigger] self.clients@[i]).client_id != (
            #[trigger] self.clients@[j]).client_id
        &&& forall|i: int|
            0 <= i < self.clients@.len() ==> (#[trigger] self.clients@[i]).shard
                < self.shards_count
    }

    /// The shard that owns the stream with the number: the number modulo the
    /// number of shards.
    pub open spec fn owner(self, stream_number: u32) -> u32 {
        (stream_number % self.shards_count) as u32
    }

    /// The shard that owns the stream that an identifier names: a number is
    /// taken as it is, a name is looked up; a name that the router does not
    /// know is `NotFound`.
    pub open spec fn owner_of(self, stream_id: IdentifierView) -> Result<u32, IggyError> {
        match stream_id.kind {
            IdKind::Numeric => Ok(self.owner(le_u32(stream_id.value))),
            IdKind::String => if knows_name(self.names@, stream_id.value) {
                Ok(self.owner(number_of(self.names@, stream_id.value)))
            } else {
                Err(IggyError::NotFound)
            },
        }
    }

    /// The shard that a command goes to, given the shard that accepted the
    /// connection it came in on.
    ///
    /// A command that names a stream goes to the owner of that stream; the
    /// creation of a stream goes to the owner of the id it asks for, or to the
    /// control shard where it asks for none.  A question about a client goes
    /// to the shard of that client.  `Ping` and `GetMe` stay where they came
    /// in.  Everything else is system-wide and goes to the control shard.
    pub open spec fn spec_route(self, command: Command, origin: u32) -> Result<u32, IggyError> {
        match command {
            Command::Ping(_) => Ok(origin),
            Command::GetMe(_) => Ok(origin),
            Command::GetClient(c) => if knows_client(self.clients@, c.client_id) {
                Ok(home_of(self.clients@, c.client_id))
            } else {
                Err(IggyError::NotFound)
            },
            Command::CreateStream(c) => match c.stream_id {
                Some(id) => Ok(self.owner(id)),
                None => Ok(CONTROL_SHARD),
            },
            _ => match spec_stream_of(command) {
                Some(stream_id) => self.owner_of(stream_id),
                None => Ok(CONTROL_SHARD),
            },
        }
    }

    /// Tells whether the router is well-formed.
    pub fn is_valid(&self) -> (r: bool)
        ensures
            r == self.wf(),
    {
        if self.shards_count == 0 {
            return false;
        }
        let n = self.names.len();
        let mut i: usize = 0;
        while i < n
            invariant
                i <= n,
                n == self.names@.len(),
                forall|a: int, b: int|
                    0 <= a < b < n && a < i ==> (#[trigger] self.names@[a]).name@ != (
                    #[trigger] self.names@[b]).name@,
            decreases n - i,
        {
            let mut j: usize = i + 1;
            while j < n
                invariant
                    i < j <= n,
                    n == self.names@.len(),
                    forall|b: int|
                        i < b < j ==> self.names@[i as int].name@ != (
                        #[trigger] self.names@[b]).name@,
                decreases n - j,
            {
                if same_bytes(self.names[i].name.as_slice(), self.names[j].name.as_slice()) {
                    return false;
                }
                j += 1;
            }
            i += 1;
        }
        let c = self.clients.len();
        let mut x: usize = 0;
        while x < c
            invariant
                x <= c,
                c == self.clients@.len(),
                self.shards_count >= 1,
                forall|p: int| 0 <= p < x ==> (#[trigger] self.clients@[p]).shard < self.shards_count,
                forall|p: int, q: int|
                    0 <= p < q < c && p < x ==> (#[trigger] self.clients@[p]).client_id != (
                    #[trigger] self.clients@[q]).client_id,
            decreases c - x,
        {
            if self.clients[x].shard >= self.shards_count {
                proof {
                    assert(!(self.clients@[x as int].shard < self.shards_count));
                }
                return false;
            }
            let mut y: usize = x + 1;
            while y < c
                invariant
                    x < y <= c,
                    c == self.clients@.len(),
                    forall|q: int|
                        x < q < y ==> self.clients@[x as int].client_id != (
                        #[trigger] self.clients@[q]).client_id,
                decreases c - y,
            {
                if self.clients[x].client_id == self.clients[y].client_id {
                    return false;
                }
                y += 1;
            }
            x += 1;
        }
        true
    }

    /// A router for `shards_count` shards that knows no stream and no
    /// client.  With no shard at all there is nothing to route to.
    pub fn new(shards_count: u32) -> (r: Result<ShardRouter, IggyError>)
        ensures
            match r {
                Ok(router) => shards_count >= 1 && router.wf() && router.shards_count
                    == shards_count && router.names@.len() == 0 && router.clients@.len() == 0,
                Err(e) => e == IggyError::InvalidConfiguration && shards_count == 0,
            },
    {
        if shards_count == 0 {
            return Err(IggyError::InvalidConfiguration);
        }
        Ok(ShardRouter { shards_count, names: Vec::new(), clients: Vec::new() })
    }

    /// Finds the record of a name.
    fn find_name(&self, name: &[u8]) -> (r: Option<usize>)
        requires
            self.wf(),
        ensures
            match r {
                Some(i) => i < self.names@.len() && knows_name(self.names@, name@) && number_of(
                    self.names@,
                    name@,
                ) == self.names@[i as int].id && self.names@[i as int].name@ == name@,
                None => !knows_name(self.names@, name@),
            },
    {
        let mut i: usize = 0;
        while i < self.names.len()
            invariant
                i <= self.names@.len(),
                self.wf(),
                forall|k: int| 0 <= k < i ==> (#[trigger] self.names@[k]).name@ != name@,
            decreases self.names@.len() - i,
        {
            if same_bytes(self.names[i].name.as_slice(), name) {
                proof {
                    let j = choose|j: int|
                        0 <= j < self.names@.len() && (#[trigger] self.names@[j]).name@ == name@;
                    if i < j {
                        assert(self.names@[i as int].name@ != self.names@[j].name@);
                    }
                    if j < i {
                        assert(self.names@[j].name@ != self.names@[i as int].name@);
                    }
                }
                return Some(i);
            }
            i += 1;
        }
        None
    }

    /// Finds the record of a client.
    fn find_client(&self, client_id: u32) -> (r: Option<usize>)
        requires
            self.wf(),
        ensures
            match r {
                Some(i) => i < self.clients@.len() && knows_client(self.clients@, client_id)
                    && home_of(self.clients@, client_id) == self.clients@[i as int].shard
                    && self.clients@[i as int].client_id == client_id,
                None => !knows_client(self.clients@, client_id),
            },
    {
        let mut i: usize = 0;
        while i < self.clients.len()
            invariant
                i <= self.clients@.len(),
                self.wf(),
                forall|k: int| 0 <= k < i ==> (#[trigger] self.clients@[k]).client_id != client_id,
            decreases self.clients@.len() - i,
        {
            if self.clients[i].client_id == client_id {
                proof {
                    let j = choose|j: int|
                        0 <= j < self.clients@.len() && (#[trigger] self.clients@[j]).client_id
                            == client_id;
                    if i < j {
                        assert(self.clients@[i as int].client_id != self.clients@[j].client_id);
                    }
                    if j < i {
                        assert(self.clients@[j].client_id != self.clients@[i as int].client_id);
                    }
                }
                return Some(i);
            }
            i += 1;
        }
        None
    }

    /// The shard that owns the stream that the identifier names.
    pub fn stream_owner(&self, stream_id: &Identifier) -> (r: Result<u32, IggyError>)
        requires
            self.wf(),
        ensures
            r == self.owner_of(stream_id@),
            r is Ok ==> r->Ok_0 < self.shards_count,
    {
        match stream_id.get_u32_value() {
            Ok(number) => Ok(number % self.shards_count),
            Err(_) => match self.find_name(stream_id.value()) {
                Some(i) => Ok(self.names[i].id % self.shards_count),
                None => Err(IggyError::NotFound),
            },
        }
    }

    /// The shard that the command goes to, given the shard that accepted
    /// the connection it came in on.
    pub fn route(&self, command: &Command, origin: u32) -> (r: Result<u32, IggyError>)
        requires
            self.wf(),
            origin < self.shards_count,
        ensures
            r == self.spec_route(*command, origin),
            r is Ok ==> r->Ok_0 < self.shards_count,
    {
        match command {
            Command::Ping(_) => Ok(origin),
            Command::GetMe(_) => Ok(origin),
            Command::GetClient(c) => match self.find_client(c.client_id) {
                Some(i) => Ok(self.clients[i].shard),
                None => Err(IggyError::NotFound),
            },
            Command::CreateStream(c) => match c.stream_id {
                Some(id) => Ok(id % self.shards_count),
                None => Ok(CONTROL_SHARD),
            },
            _ => match stream_of(command) {
                Some(stream_id) => self.stream_owner(stream_id),
                None => Ok(CONTROL_SHARD),
            },
        }
    }

    /// Records the number of a stream under its name, in place of what was
    /// recorded under that name.
    pub fn learn_stream(&mut self, name: &Vec<u8>, id: u32)
        requires
            old(self).wf(),
        ensures
            final(self).wf(),
            final(self).shards_count == old(self).shards_count,
            final(self).clients == old(self).clients,
            knows_name(final(self).names@, name@),
            number_of(final(self).names@, name@) == id,
    {
        match self.find_name(name.as_slice()) {
            Some(i) => {
                let ghost before = self.names@;
                self.names[i] = StreamName { name: copy_bytes(name), id };
                proof {
                    let after = self.names@;
                    assert forall|a: int, b: int| 0 <= a < b < after.len() implies (
                    #[trigger] after[a]).name@ != (#[trigger] after[b]).name@ by {
                        assert(before[a].name@ != before[b].name@);
                    }
                    assert(after[i as int].name@ == name@);
                    let j = choose|j: int|
                        0 <= j < after.len() && (#[trigger] after[j]).name@ == name@;
                    if i < j {
                        assert(after[i as int].name@ != after[j].name@);
                    }
                    if j < i {
                        assert(after[j].name@ != after[i as int].name@);
                    }
                }
            },
            None => {
                let ghost before = self.names@;
                self.names.push(StreamName { name: copy_bytes(name), id });
                proof {
                    let after = self.names@;
                    let last = before.len() as int;
                    assert forall|a: int, b: int| 0 <= a < b < after.len() implies (
                    #[trigger] after[a]).name@ != (#[trigger] after[b]).name@ by {
                        if b < last {
                            assert(before[a].name@ != before[b].name@);
                        } else {
                            assert(after[a] == before[a]);
                        }
                    }
                    assert(after[last].name@ == name@);
                    let j = choose|j: int|
                        0 <= j < after.len() && (#[trigger] after[j]).name@ == name@;
                    if j < last {
                        assert(after[j].name@ != after[last].name@);
                    }
                }
            },
        }
    }

    /// Forgets what is recorded under the name of a stream.
    pub fn forget_stream(&mut self, name: &Vec<u8>)
        requires
            old(self).wf(),
        ensures
            final(self).wf(),
            final(self).shards_count == old(self).shards_count,
            final(self).clients == old(self).clients,
            !knows_name(final(self).names@, name@),
    {
        match self.find_name(name.as_slice()) {
            Some(i) => {
                let ghost before = self.names@;
                self.names.remove(i);
                proof {
                    let after = self.names@;
                    assert forall|a: int| 0 <= a < after.len() implies (#[trigger] after[a]).name@
                        != name@ by {
                        let x = if a < i { a } else { a + 1 };
                        assert(after[a] == before[x]);
                        if x < i {
                            assert(before[x].name@ != before[i as int].name@);
                        } else {
                            assert(before[i as int].name@ != before[x].name@);
                        }
                    }
                    assert forall|a: int, b: int| 0 <= a < b < after.len() implies (
                    #[trigger] after[a]).name@ != (#[trigger] after[b]).name@ by {
                        let x = if a < i { a } else { a + 1 };
                        let y = if b < i { b } else { b + 1 };
                        assert(after[a] == before[x]);
                        assert(after[b] == before[y]);
                        assert(before[x].name@ != before[y].name@);
                    }
                }
            },
            None => {},
        }
    }

    /// Records the shard that accepted the connection of a client, in place
    /// of what was recorded for that client.  A shard that does not exist is
    /// refused as `InvalidConfiguration` and nothing changes.
    pub fn learn_client(&mut self, client_id: u32, shard: u32) -> (r: Result<(), IggyError>)
        requires
            old(self).wf(),
        ensures
            final(self).wf(),
            final(self).shards_count == old(self).shards_count,
            final(self).names == old(self).names,
            if shard < old(self).shards_count {
                r is Ok && knows_client(final(self).clients@, client_id) && home_of(
                    final(self).clients@,
                    client_id,
                ) == shard
            } else {
                r == Err::<(), IggyError>(IggyError::InvalidConfiguration) && final(self).clients
                    == old(self).clients
            },
    {
        if shard >= self.shards_count {
            return Err(IggyError::InvalidConfiguration);
        }
        let entry = ClientHome { client_id, shard };
        match self.find_client(client_id) {
            Some(i) => {
                let ghost before = self.clients@;
                self.clients[i] = entry;
                proof {
                    let after = self.clients@;
                    assert forall|a: int, b: int| 0 <= a < b < after.len() implies (
                    #[trigger] after[a]).client_id != (#[trigger] after[b]).client_id by {
                        assert(before[a].client_id != before[b].client_id);
                    }
                    assert forall|a: int| 0 <= a < after.len() implies (#[trigger] after[a]).shard
                        < self.shards_count by {
                        if a != i {
                            assert(after[a] == before[a]);
                        }
                    }
                    assert(after[i as int].client_id == client_id);
                    let j = choose|j: int|
                        0 <= j < after.len() && (#[trigger] after[j]).client_id == client_id;
                    if i < j {
                        assert(after[i as int].client_id != after[j].client_id);
                    }
                    if j < i {
                        assert(after[j].client_id != after[i as int].client_id);
                    }
                }
            },
            None => {
                let ghost before = self.clients@;
                self.clients.push(entry);
                proof {
                    let after = self.clients@;
                    let last = before.len() as int;
                    assert forall|a: int, b: int| 0 <= a < b < after.len() implies (
                    #[trigger] after[a]).client_id != (#[trigger] after[b]).client_id by {
                        if b < last {
                            assert(before[a].client_id != before[b].client_id);
                        } else {
                            assert(after[a] == before[a]);
                        }
                    }
                    assert forall|a: int| 0 <= a < after.len() implies (#[trigger] after[a]).shard
                        < self.shards_count by {
                        if a < last {
                            assert(after[a] == before[a]);
                        }
                    }
                    assert(after[last].client_id == client_id);
                    let j = choose|j: int|
                        0 <= j < after.len() && (#[trigger] after[j]).client_id == client_id;
                    if j < last {
                        assert(after[j].client_id != after[last].client_id);
                    }
                }
            },
        }
        Ok(())
    }
}

} // verus!
