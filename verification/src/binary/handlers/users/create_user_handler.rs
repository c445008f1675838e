//! The handler of `CreateUser`.

use crate::binary::sender::empty_ok_response;
use crate::binary::sender::ok_frame;
use crate::buffer::bytes_view;
use crate::error::IggyError;
use crate::shard::users::created_user;
use crate::shard::IggyShard;
use crate::streaming::session::Session;
use crate::users::CreateUser;
use bytes::Bytes;
use vstd::prelude::*;

verus! {

/// Creates the user that the command describes and returns the frame of the
/// reply that acknowledges it.  Where the user cannot be created the error
/// is returned and no reply is made.
pub fn handle(command: &CreateUser, session: &Session, system: &mut IggyShard) -> (r: Result<
    Bytes,
    IggyError,
>)
    requires
        old(system).wf(),
    ensures
        final(system).wf(),
        match r {
            Ok(reply) => bytes_view(reply) == ok_frame(Seq::empty()) && exists|id: u32|
                #[trigger] created_user(
                    *old(system),
                    *final(system),
                    *session,
                    command.username@,
                    command.password@,
                    command.status,
                    command.permissions,
                    Ok::<u32, IggyError>(id),
                ),
            Err(e) => created_user(
                *old(system),
                *final(system),
                *session,
                command.username@,
                command.password@,
                command.status,
                command.permissions,
                Err::<u32, IggyError>(e),
            ),
        },
{
    system.create_user(
        session,
        &command.username,
        &command.password,
        command.status,
        command.permissions,
    )?;
    Ok(empty_ok_response())
}

} // verus!
