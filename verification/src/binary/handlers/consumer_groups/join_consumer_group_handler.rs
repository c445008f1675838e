//! The handler of `JoinConsumerGroup`.

use crate::binary::sender::empty_ok_response;
use crate::binary::sender::ok_frame;
use crate::buffer::bytes_view;
use crate::consumer_groups::JoinConsumerGroup;
use crate::error::IggyError;
use crate::shard::groups::joined_consumer_group;
use crate::shard::IggyShard;
use crate::streaming::session::Session;
use bytes::Bytes;
use vstd::prelude::*;

verus! {

/// Makes the client of the session a member of the consumer group that the
/// command names and returns the frame of the reply that acknowledges it.
/// Where that fails the error is returned and no reply is made.
pub fn handle(command: &JoinConsumerGroup, session: &Session, system: &mut IggyShard) -> (r:
    Result<Bytes, IggyError>)
    requires
        old(system).wf(),
    ensures
        final(system).wf(),
        r is Ok ==> bytes_view(r->Ok_0) == ok_frame(Seq::empty()),
        joined_consumer_group(
            *old(system),
            *final(system),
            *session,
            command.stream_id@,
            command.topic_id@,
            command.group_id@,
            match r {
                Ok(_) => Ok(()),
                Err(e) => Err(e),
            },
        ),
{
    let done = system.join_consumer_group(
        session,
        &command.stream_id,
        &command.topic_id,
        &command.group_id,
    );
    match done {
        Ok(unit) => {
            proof {
                assert(unit == ());
            }
            Ok(empty_ok_response())
        },
        Err(e) => Err(e),
    }
}

} // verus!
