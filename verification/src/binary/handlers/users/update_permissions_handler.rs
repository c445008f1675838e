//! The handler of `UpdatePermissions`.

use crate::binary::sender::empty_ok_response;
use crate::binary::sender::ok_frame;
use crate::buffer::bytes_view;
use crate::error::IggyError;
use crate::shard::users::updated_permissions;
use crate::shard::IggyShard;
use crate::streaming::session::Session;
use crate::users::UpdatePermissions;
use bytes::Bytes;
use vstd::prelude::*;

verus! {

/// Replaces the permissions of the user that the command names and returns
/// the frame of the reply that acknowledges it.  Where that fails the error
/// is returned and no reply is made.
pub fn handle(command: &UpdatePermissions, session: &Session, system: &mut IggyShard) -> (r:
    Result<Bytes, IggyError>)
    requires
        old(system).wf(),
    ensures
        final(system).wf(),
        r is Ok ==> bytes_view(r->Ok_0) == ok_frame(Seq::empty()),
        updated_permissions(
            *old(system),
            *final(system),
            *session,
            command.user_id@,
            command.permissions,
            match r {
                Ok(_) => Ok(()),
                Err(e) => Err(e),
            },
        ),
{
    let done = system.update_permissions(session, &command.user_id, command.permissions);
    match done {
        Ok(unit) => {
            proof {
                assert(unit == ());
            }
            Ok(empty_ok_response())
        },
        Err(e) => Err(e),
    }
}

} // verus!
