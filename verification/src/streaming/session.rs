//! The session of a connection: who is connected, and as whom.

use crate::error::IggyError;
use crate::permissions::Action;
use crate::permissions::Permissions;
use vstd::prelude::*;

verus! {

/// The identity behind one connection.  It is created when the connection
/// is accepted, changed by login and logout, and dropped with the
/// connection.
#[derive(Debug, Clone, Copy, PartialEq, Eq, Structural)]
pub struct Session {
    /// Id of the client, given out when the connection was accepted.
    pub client_id: u32,
    /// Id of the logged-in user, if any.
    pub user_id: Option<u64>,
    /// Whether a user is logged in.
    pub authenticated: bool,
    /// The permissions of the logged-in user, as they were at login.
    pub permissions: Option<Permissions>,
}

impl Session {
    /// A user is logged in exactly where a user id is set, and permissions
    /// are held only for a logged-in user.
    pub open spec fn wf(self) -> bool {
        self.authenticated == self.user_id is Some && (!self.authenticated
            ==> self.permissions is None)
    }

    /// The session of a connection on which nobody has logged in.
    pub open spec fn anonymous(client_id: u32) -> Session {
        Session { client_id, user_id: None, authenticated: false, permissions: None }
    }

    /// The verdict on an operation that needs the given permission, or only
    /// a logged-in user where it needs none: `Unauthenticated` where nobody
    /// is logged in, `Unauthorized` where the user lacks the permission.
    pub open spec fn verdict(self, needed: Option<Action>) -> Result<(), IggyError> {
        if !self.authenticated {
            Err(IggyError::Unauthenticated)
        } else {
            match needed {
                None => Ok(()),
                Some(action) => if self.permissions is Some && self.permissions->Some_0.allows(
                    action,
                ) {
                    Ok(())
                } else {
                    Err(IggyError::Unauthorized)
                },
            }
        }
    }

    /// Tells whether the session is well-formed.
    pub fn is_valid(&self) -> (r: bool)
        ensures
            r == self.wf(),
    {
        self.authenticated == self.user_id.is_some() && (self.authenticated
            || self.permissions.is_none())
    }

    /// The session of a freshly accepted connection.
    pub fn new(client_id: u32) -> (r: Session)
        ensures
            r == Self::anonymous(client_id),
            r.wf(),
    {
        Session { client_id, user_id: None, authenticated: false, permissions: None }
    }

    /// Tells whether a user is logged in.
    pub fn is_authenticated(&self) -> (r: bool)
        ensures
            r == self.authenticated,
    {
        self.authenticated
    }

    /// Records a successful login.
    pub fn set_user(&mut self, user_id: u32, permissions: Option<Permissions>)
        ensures
            final(self).wf(),
            *final(self) == (Session {
                client_id: old(self).client_id,
                user_id: Some(user_id as u64),
                authenticated: true,
                permissions,
            }),
    {
        self.user_id = Some(user_id as u64);
        self.authenticated = true;
        self.permissions = permissions;
    }

    /// Records a logout: the user id and the cached permissions are gone.
    pub fn clear_user_id(&mut self)
        ensures
            *final(self) == Self::anonymous(old(self).client_id),
            final(self).wf(),
    {
        self.user_id = None;
        self.authenticated = false;
        self.permissions = None;
    }

    /// Checks that a user is logged in and, where a permission is needed,
    /// has it.
    pub fn authorize(&self, needed: Option<Action>) -> (r: Result<(), IggyError>)
        ensures
            r == self.verdict(needed),
    {
        if !self.authenticated {
            return Err(IggyError::Unauthenticated);
        }
        match needed {
            None => Ok(()),
            Some(action) => match &self.permissions {
                Some(permissions) => if permissions.can(action) {
                    Ok(())
                } else {
                    Err(IggyError::Unauthorized)
                },
                None => Err(IggyError::Unauthorized),
            },
        }
    }
}

} // verus!
