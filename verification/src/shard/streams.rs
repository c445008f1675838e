//! Operations on streams.

use crate::error::IggyError;
use crate::identifier::Identifier;
use crate::identifier::IdentifierView;
use crate::permissions::Action;
use crate::shard::lemma_stream_change_keeps_wf;
use crate::shard::only_stream;
use crate::shard::storage::emitted;
use crate::shard::storage::StorageRequest;
use crate::shard::tables_kept;
use crate::shard::unchanged;
use crate::shard::IggyShard;
use crate::streaming::registry::distinct;
use crate::streaming::registry::find_by_id;
use crate::streaming::registry::find_by_name;
use crate::streaming::registry::has_id;
use crate::streaming::registry::has_name;
use crate::streaming::registry::lemma_located;
use crate::streaming::registry::lemma_locate_in_range;
use crate::streaming::registry::locate;
use crate::streaming::registry::max_id;
use crate::streaming::registry::next_id;
use crate::streaming::registry::Resource;
use crate::streaming::session::Session;
use crate::streaming::stream::purged;
use crate::streaming::stream::Stream;
use crate::streaming::registry::lemma_removed_distinct;
use crate::wire::copy_bytes;
use vstd::prelude::*;

verus! {

/// What [`IggyShard::create_stream`] does.
///
/// The session needs the right to manage streams.  An id or a name that is
/// in use is refused as `AlreadyExists`; where no id is given and none is
/// left, the result is `ResourceBusy`; in these cases nothing changes.
/// Otherwise a stream without topics is added after the streams that were
/// there, and the result is its id: the one given, or one more than the
/// largest id in use, so 1 on a broker without streams.  The storage layer
/// is asked to create the directory of the stream.
pub open spec fn created_stream(
    before: IggyShard,
    after: IggyShard,
    session: Session,
    stream_id: Option<u32>,
    name: Seq<u8>,
    r: Result<u32, IggyError>,
) -> bool {
    match session.verdict(Some(Action::ManageStreams)) {
        Err(e) => r == Err::<u32, IggyError>(e) && unchanged(before, after),
        Ok(_) => if has_name(before.streams@, name) || (stream_id is Some && has_id(
            before.streams@,
            stream_id->Some_0,
        )) {
            r == Err::<u32, IggyError>(IggyError::AlreadyExists) && unchanged(before, after)
        } else if stream_id is None && max_id(before.streams@) == u32::MAX {
            r == Err::<u32, IggyError>(IggyError::ResourceBusy) && unchanged(before, after)
        } else {
            let id = match stream_id {
                Some(id) => id,
                None => (max_id(before.streams@) + 1) as u32,
            };
            &&& r == Ok::<u32, IggyError>(id)
            &&& tables_kept(before, after)
            &&& emitted(before, after, StorageRequest::CreateStreamDir { stream_id: id })
            &&& after.streams@.len() == before.streams@.len() + 1
            &&& after.streams@.drop_last() == before.streams@
            &&& after.streams@.last().id == id
            &&& after.streams@.last().name@ == name
            &&& after.streams@.last().topics@.len() == 0
        },
    }
}

/// What [`IggyShard::delete_stream`] does.
///
/// The session needs the right to manage streams.  Where the identifier
/// names no stream the result is `NotFound` and nothing changes.  Otherwise
/// the stream is gone with everything beneath it, the other streams are as
/// they were, and the storage layer is asked to reclaim the space of the
/// stream.
pub open spec fn deleted_stream(
    before: IggyShard,
    after: IggyShard,
    session: Session,
    stream_id: IdentifierView,
    r: Result<(), IggyError>,
) -> bool {
    match before.admit_stream(session, Action::ManageStreams, stream_id) {
        Err(e) => r == Err::<(), IggyError>(e) && unchanged(before, after),
        Ok(si) => r is Ok && tables_kept(before, after) && emitted(
            before,
            after,
            StorageRequest::DeleteStreamDir { stream_id: before.streams@[si].id },
        ) && after.streams@ == before.streams@.remove(si),
    }
}

/// What [`IggyShard::update_stream`] does.
///
/// The session needs the right to manage streams and the stream must exist.
/// A name that another stream bears is refused as `AlreadyExists` and nothing
/// changes.  Otherwise the stream bears the new name and keeps its topics.
pub open spec fn updated_stream(
    before: IggyShard,
    after: IggyShard,
    session: Session,
    stream_id: IdentifierView,
    name: Seq<u8>,
    r: Result<(), IggyError>,
) -> bool {
    match before.admit_stream(session, Action::ManageStreams, stream_id) {
        Err(e) => r == Err::<(), IggyError>(e) && unchanged(before, after),
        Ok(si) => if has_name(before.streams@, name) && before.streams@[si].name@ != name {
            r == Err::<(), IggyError>(IggyError::AlreadyExists) && unchanged(before, after)
        } else {
            &&& r is Ok
            &&& only_stream(before, after, si)
            &&& after.streams@[si].name@ == name
            &&& after.streams@[si].topics == before.streams@[si].topics
        },
    }
}

/// What [`IggyShard::purge_stream`] does.
///
/// The session needs the right to manage streams and the stream must exist.
/// Then no partition of any topic of the stream holds a message or a stored
/// offset; the topics, partitions and consumer groups themselves stay.
pub open spec fn purged_stream(
    before: IggyShard,
    after: IggyShard,
    session: Session,
    stream_id: IdentifierView,
    r: Result<(), IggyError>,
) -> bool {
    match before.admit_stream(session, Action::ManageStreams, stream_id) {
        Err(e) => r == Err::<(), IggyError>(e) && unchanged(before, after),
        Ok(si) => {
            &&& r is Ok
            &&& only_stream(before, after, si)
            &&& after.streams@[si].name == before.streams@[si].name
            &&& after.streams@[si].topics@.len() == before.streams@[si].topics@.len()
            &&& forall|i: int|
                0 <= i < after.streams@[si].topics@.len() ==> purged(
                    before.streams@[si].topics@[i],
                    #[trigger] after.streams@[si].topics@[i],
                )
        },
    }
}

/// Once an item is removed, the identifier that named it names nothing.
pub proof fn lemma_removed_is_gone<T: Resource>(items: Seq<T>, identifier: IdentifierView, i: int)
    requires
        distinct(items),
        locate(items, identifier) == Some(i),
    ensures
        locate(items.remove(i), identifier) is None,
{
    lemma_locate_in_range(items, identifier);
    let rest = items.remove(i);
    assert forall|k: int| 0 <= k < rest.len() implies (#[trigger] rest[k]).spec_id() != items[i].spec_id()
        && rest[k].spec_name() != items[i].spec_name() by {
        let x = if k < i { k } else { k + 1 };
        assert(rest[k] == items[x]);
        if x < i {
            assert(items[x].spec_id() != items[i].spec_id());
        } else {
            assert(items[i].spec_id() != items[x].spec_id());
        }
    }
}

/// Deleting a stream a second time changes nothing: the first deletion
/// removes it, the second finds nothing under the identifier, answers
/// `NotFound` and leaves the index as it is.
pub proof fn lemma_delete_stream_twice(
    before: IggyShard,
    between: IggyShard,
    after: IggyShard,
    session: Session,
    stream_id: IdentifierView,
    first: Result<(), IggyError>,
    second: Result<(), IggyError>,
)
    requires
        before.wf(),
        deleted_stream(before, between, session, stream_id, first),
        first is Ok,
        deleted_stream(between, after, session, stream_id, second),
    ensures
        second == Err::<(), IggyError>(IggyError::NotFound),
        unchanged(between, after),
{
    let si = locate(before.streams@, stream_id)->Some_0;
    lemma_removed_is_gone(before.streams@, stream_id, si);
}

impl IggyShard {
    /// Finds a stream for reading.  The session needs the right to read
    /// streams.
    pub fn find_stream(&self, session: &Session, stream_id: &Identifier) -> (r: Result<
        usize,
        IggyError,
    >)
        requires
            self.wf(),
        ensures
            match r {
                Ok(si) => self.admit_stream(*session, Action::ReadStreams, stream_id@) == Ok::<
                    int,
                    IggyError,
                >(si as int) && si < self.streams@.len(),
                Err(e) => self.admit_stream(*session, Action::ReadStreams, stream_id@) == Err::<
                    int,
                    IggyError,
                >(e),
            },
    {
        self.enter_stream(session, Action::ReadStreams, stream_id)
    }

    /// Checks that the session may read the streams.
    pub fn get_streams(&self, session: &Session) -> (r: Result<(), IggyError>)
        ensures
            r == session.verdict(Some(Action::ReadStreams)),
    {
        session.authorize(Some(Action::ReadStreams))
    }

    /// Creates a stream and returns its id.
    pub fn create_stream(&mut self, session: &Session, stream_id: Option<u32>, name: &Vec<u8>) -> (r:
        Result<u32, IggyError>)
        requires
            old(self).wf(),
        ensures
            final(self).wf(),
            created_stream(*old(self), *final(self), *session, stream_id, name@, r),
    {
        session.authorize(Some(Action::ManageStreams))?;
        if find_by_name(&self.streams, name.as_slice()).is_some() {
            return Err(IggyError::AlreadyExists);
        }
        let id = match stream_id {
            Some(id) => {
                if find_by_id(&self.streams, id).is_some() {
                    return Err(IggyError::AlreadyExists);
                }
                id
            },
            None => match next_id(&self.streams) {
                Some(id) => id,
                None => { return Err(IggyError::ResourceBusy); },
            },
        };
        let ghost before = self.streams@;
        self.streams.push(Stream::new(id, copy_bytes(name)));
        self.outbox.push(StorageRequest::CreateStreamDir { stream_id: id });
        proof {
            let after = self.streams@;
            assert(after.drop_last() =~= before);
            assert forall|i: int, j: int| 0 <= i < j < after.len() implies (
            #[trigger] after[i]).spec_id() != (#[trigger] after[j]).spec_id() && after[i].spec_name()
                != after[j].spec_name() by {
                if j < before.len() {
                    assert(before[i].spec_id() != before[j].spec_id());
                } else {
                    assert(after[i] == before[i]);
                }
            }
            assert forall|i: int| 0 <= i < after.len() implies (#[trigger] after[i]).wf() by {
                if i < before.len() {
                    assert(after[i] == before[i]);
                }
            }
        }
        Ok(id)
    }

    /// Deletes a stream with all its topics.
    pub fn delete_stream(&mut self, session: &Session, stream_id: &Identifier) -> (r: Result<
        (),
        IggyError,
    >)
        requires
            old(self).wf(),
        ensures
            final(self).wf(),
            deleted_stream(*old(self), *final(self), *session, stream_id@, r),
    {
        let si = self.enter_stream(session, Action::ManageStreams, stream_id)?;
        let ghost before = self.streams@;
        let stream_id = self.streams[si].id;
        self.streams.remove(si);
        self.outbox.push(StorageRequest::DeleteStreamDir { stream_id });
        proof {
            lemma_removed_distinct(before, si as int);
            let after = self.streams@;
            assert forall|i: int| 0 <= i < after.len() implies (#[trigger] after[i]).wf() by {
                let x = if i < si { i } else { i + 1 };
                assert(after[i] == before[x]);
            }
        }
        Ok(())
    }

    /// Gives a stream a new name.
    pub fn update_stream(&mut self, session: &Session, stream_id: &Identifier, name: &Vec<u8>) -> (r:
        Result<(), IggyError>)
        requires
            old(self).wf(),
        ensures
            final(self).wf(),
            updated_stream(*old(self), *final(self), *session, stream_id@, name@, r),
    {
        let si = self.enter_stream(session, Action::ManageStreams, stream_id)?;
        match find_by_name(&self.streams, name.as_slice()) {
            Some(j) => {
                if j != si {
                    proof {
                        lemma_located(self.streams@, si as int);
                    }
                    return Err(IggyError::AlreadyExists);
                }
            },
            None => {},
        }
        let ghost before = self.streams@;
        self.streams[si].rename(copy_bytes(name));
        proof {
            let after = self.streams@;
            assert forall|a: int, b: int| 0 <= a < b < after.len() implies (
            #[trigger] after[a]).spec_id() != (#[trigger] after[b]).spec_id() && after[a].spec_name()
                != after[b].spec_name() by {
                assert(before[a].spec_id() != before[b].spec_id());
                assert(before[a].spec_name() != before[b].spec_name());
                if a == si {
                    assert(after[b] == before[b]);
                    if before[b].spec_name() == name@ {
                        lemma_located(before, b);
                    }
                } else if b == si {
                    assert(after[a] == before[a]);
                    if before[a].spec_name() == name@ {
                        lemma_located(before, a);
                    }
                } else {
                    assert(after[a] == before[a]);
                    assert(after[b] == before[b]);
                }
            }
            assert forall|i: int| 0 <= i < after.len() implies (#[trigger] after[i]).wf() by {
                if i != si {
                    assert(after[i] == before[i]);
                }
            }
        }
        Ok(())
    }

    /// Drops the messages and stored offsets of all topics of a stream.
    pub fn purge_stream(&mut self, session: &Session, stream_id: &Identifier) -> (r: Result<
        (),
        IggyError,
    >)
        requires
            old(self).wf(),
        ensures
            final(self).wf(),
            purged_stream(*old(self), *final(self), *session, stream_id@, r),
    {
        let si = self.enter_stream(session, Action::ManageStreams, stream_id)?;
        self.streams[si].purge();
        proof {
            lemma_stream_change_keeps_wf(*old(self), *self, si as int);
        }
        Ok(())
    }
}

} // verus!
