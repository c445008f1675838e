//! The permissions of a user.

use crate::buffer::bytes_mut_view;
use crate::error::IggyError;
use crate::wire::lemma_same_front;
use bytes::BufMut;
use bytes::BytesMut;
use vstd::prelude::*;

verus! {

/// What a user may do.  Each flag grants one kind of operation.
#[derive(Debug, Clone, Copy, PartialEq, Eq, Structural)]
pub struct Permissions {
    /// May change the configuration of the broker.
    pub manage_servers: bool,
    /// May read statistics and the list of connected clients.
    pub read_servers: bool,
    /// May create, change and delete users.
    pub manage_users: bool,
    /// May read the list of users.
    pub read_users: bool,
    /// May create, change, purge and delete streams.
    pub manage_streams: bool,
    /// May read streams.
    pub read_streams: bool,
    /// May create, change, purge and delete topics, partitions and consumer
    /// groups.
    pub manage_topics: bool,
    /// May read topics and consumer groups.
    pub read_topics: bool,
    /// May read messages and consumer offsets of a topic.
    pub poll_messages: bool,
    /// May append messages to a topic.
    pub send_messages: bool,
}

/// The kinds of operation that a permission can grant.
#[derive(Debug, Clone, Copy, PartialEq, Eq, Structural)]
pub enum Action {
    ManageServers,
    ReadServers,
    ManageUsers,
    ReadUsers,
    ManageStreams,
    ReadStreams,
    ManageTopics,
    ReadTopics,
    PollMessages,
    SendMessages,
}

/// The byte that stands for a flag: 1 for "granted", 0 for "not granted".
pub open spec fn flag_byte(granted: bool) -> u8 {
    if granted {
        1
    } else {
        0
    }
}

impl Permissions {
    /// The wire form: one byte per flag, in the order of the fields.
    pub open spec fn wire(self) -> Seq<u8> {
        seq![
            flag_byte(self.manage_servers),
            flag_byte(self.read_servers),
            flag_byte(self.manage_users),
            flag_byte(self.read_users),
            flag_byte(self.manage_streams),
            flag_byte(self.read_streams),
            flag_byte(self.manage_topics),
            flag_byte(self.read_topics),
            flag_byte(self.poll_messages),
            flag_byte(self.send_messages),
        ]
    }

    /// Reads the ten flags from the front of `s`; a byte other than 0 and 1
    /// among them is rejected.
    pub open spec fn parse(s: Seq<u8>) -> Option<(Permissions, nat)> {
        if s.len() < 10 || exists|i: int| 0 <= i < 10 && s[i] > 1 {
            None
        } else {
            Some(
                (
                    Permissions {
                        manage_servers: s[0] == 1,
                        read_servers: s[1] == 1,
                        manage_users: s[2] == 1,
                        read_users: s[3] == 1,
                        manage_streams: s[4] == 1,
                        read_streams: s[5] == 1,
                        manage_topics: s[6] == 1,
                        read_topics: s[7] == 1,
                        poll_messages: s[8] == 1,
                        send_messages: s[9] == 1,
                    },
                    10nat,
                ),
            )
        }
    }

    /// Reading back encoded permissions gives them back, whatever follows.
    pub proof fn lemma_parse(value: Permissions, rest: Seq<u8>)
        ensures
            Self::parse(value.wire() + rest) == Some((value, value.wire().len())),
            (value.wire() + rest).skip(value.wire().len() as int) == rest,
            value.wire().len() == 10,
    {
        let s = value.wire() + rest;
        assert forall|i: int| 0 <= i < 10 implies s[i] == value.wire()[i] && s[i] <= 1 by {}
        assert(s.skip(10) =~= rest);
    }

    /// Reading permissions looks at nothing beyond their ten bytes.
    pub proof fn lemma_local(s: Seq<u8>, other: Seq<u8>)
        requires
            Self::parse(s) is Some,
            other.len() >= Self::parse(s).unwrap().1,
            other.take(Self::parse(s).unwrap().1 as int) == s.take(
                Self::parse(s).unwrap().1 as int,
            ),
        ensures
            Self::parse(other) == Self::parse(s),
    {
        lemma_same_front(s, other, 10);
    }

    /// Tells whether the permissions grant the kind of operation.  The right
    /// to manage a kind of resource includes the right to read it.
    pub open spec fn allows(self, action: Action) -> bool {
        match action {
            Action::ManageServers => self.manage_servers,
            Action::ReadServers => self.read_servers || self.manage_servers,
            Action::ManageUsers => self.manage_users,
            Action::ReadUsers => self.read_users || self.manage_users,
            Action::ManageStreams => self.manage_streams,
            Action::ReadStreams => self.read_streams || self.manage_streams,
            Action::ManageTopics => self.manage_topics,
            Action::ReadTopics => self.read_topics || self.manage_topics,
            Action::PollMessages => self.poll_messages,
            Action::SendMessages => self.send_messages,
        }
    }

    /// Tells whether the permissions grant the kind of operation.
    pub fn can(&self, action: Action) -> (r: bool)
        ensures
            r == self.allows(action),
    {
        match action {
            Action::ManageServers => self.manage_servers,
            Action::ReadServers => self.read_servers || self.manage_servers,
            Action::ManageUsers => self.manage_users,
            Action::ReadUsers => self.read_users || self.manage_users,
            Action::ManageStreams => self.manage_streams,
            Action::ReadStreams => self.read_streams || self.manage_streams,
            Action::ManageTopics => self.manage_topics,
            Action::ReadTopics => self.read_topics || self.manage_topics,
            Action::PollMessages => self.poll_messages,
            Action::SendMessages => self.send_messages,
        }
    }

    /// The permissions that grant nothing.
    pub fn none() -> (p: Permissions)
        ensures
            p == Self::spec_none(),
    {
        Permissions {
            manage_servers: false,
            read_servers: false,
            manage_users: false,
            read_users: false,
            manage_streams: false,
            read_streams: false,
            manage_topics: false,
            read_topics: false,
            poll_messages: false,
            send_messages: false,
        }
    }

    /// The permissions that grant nothing.
    pub open spec fn spec_none() -> Permissions {
        Permissions {
            manage_servers: false,
            read_servers: false,
            manage_users: false,
            read_users: false,
            manage_streams: false,
            read_streams: false,
            manage_topics: false,
            read_topics: false,
            poll_messages: false,
            send_messages: false,
        }
    }

    /// The permissions that grant everything, as the root user has them.
    pub fn all() -> (p: Permissions)
        ensures
            p == Self::spec_all(),
    {
        Permissions {
            manage_servers: true,
            read_servers: true,
            manage_users: true,
            read_users: true,
            manage_streams: true,
            read_streams: true,
            manage_topics: true,
            read_topics: true,
            poll_messages: true,
            send_messages: true,
        }
    }

    /// The permissions that grant everything.
    pub open spec fn spec_all() -> Permissions {
        Permissions {
            manage_servers: true,
            read_servers: true,
            manage_users: true,
            read_users: true,
            manage_streams: true,
            read_streams: true,
            manage_topics: true,
            read_topics: true,
            poll_messages: true,
            send_messages: true,
        }
    }

    /// Appends the wire form to `buf`.
    pub fn put(&self, buf: &mut BytesMut)
        requires
            bytes_mut_view(*old(buf)).len() + 10 <= isize::MAX,
        ensures
            bytes_mut_view(*final(buf)) == bytes_mut_view(*old(buf)) + self.wire(),
    {
        let flags: [u8; 10] = [
            if self.manage_servers { 1 } else { 0 },
            if self.read_servers { 1 } else { 0 },
            if self.manage_users { 1 } else { 0 },
            if self.read_users { 1 } else { 0 },
            if self.manage_streams { 1 } else { 0 },
            if self.read_streams { 1 } else { 0 },
            if self.manage_topics { 1 } else { 0 },
            if self.read_topics { 1 } else { 0 },
            if self.poll_messages { 1 } else { 0 },
            if self.send_messages { 1 } else { 0 },
        ];
        buf.put_slice(flags.as_slice());
        proof {
            assert(flags@ =~= self.wire());
        }
    }

    /// Reads the permissions that start at `pos`.
    pub fn read(s: &[u8], pos: usize) -> (r: Result<(Permissions, usize), IggyError>)
        requires
            pos <= s@.len(),
        ensures
            match r {
                Ok((value, next)) => Self::parse(s@.skip(pos as int)) == Some(
                    (value, (next - pos) as nat),
                ) && pos < next <= s@.len(),
                Err(e) => e == IggyError::InvalidCommand && Self::parse(s@.skip(pos as int))
                    is None,
            },
    {
        let ghost rest = s@.skip(pos as int);
        let len = s.len();
        if len - pos < 10 {
            return Err(IggyError::InvalidCommand);
        }
        let mut i: usize = 0;
        while i < 10
            invariant
                i <= 10,
                pos + 10 <= s@.len() <= usize::MAX,
                rest == s@.skip(pos as int),
                forall|j: int| 0 <= j < i ==> rest[j] <= 1,
            decreases 10 - i,
        {
            if s[pos + i] > 1 {
                proof {
                    assert(rest[i as int] > 1);
                }
                return Err(IggyError::InvalidCommand);
            }
            i += 1;
        }
        let value = Permissions {
            manage_servers: s[pos] == 1,
            read_servers: s[pos + 1] == 1,
            manage_users: s[pos + 2] == 1,
            read_users: s[pos + 3] == 1,
            manage_streams: s[pos + 4] == 1,
            read_streams: s[pos + 5] == 1,
            manage_topics: s[pos + 6] == 1,
            read_topics: s[pos + 7] == 1,
            poll_messages: s[pos + 8] == 1,
            send_messages: s[pos + 9] == 1,
        };
        Ok((value, pos + 10))
    }
}

} // verus!
