//! Operations on users and their personal access tokens, login and logout.

use crate::error::IggyError;
use crate::identifier::Identifier;
use crate::identifier::IdentifierView;
use crate::permissions::Action;
use crate::permissions::Permissions;
use crate::shard::IggyShard;
use crate::streaming::registry::find;
use crate::streaming::registry::find_by_id;
use crate::streaming::registry::has_id;
use crate::streaming::registry::index_of_id;
use crate::streaming::registry::find_by_name;
use crate::streaming::registry::has_name;
use crate::streaming::registry::index_of_name;
use crate::streaming::registry::lemma_located;
use crate::streaming::registry::lemma_pushed_distinct;
use crate::streaming::registry::lemma_renamed_distinct;
use crate::streaming::registry::locate;
use crate::streaming::registry::max_id;
use crate::streaming::registry::next_id;
use crate::streaming::registry::Resource;
use crate::streaming::session::Session;
use crate::streaming::registry::lemma_removed_distinct;
use crate::streaming::registry::lemma_updated_distinct;
use crate::streaming::user::distinct_clients;
use crate::streaming::user::distinct_tokens;
use crate::streaming::user::has_secret;
use crate::streaming::user::has_token;
use crate::streaming::user::index_of_secret;
use crate::streaming::user::index_of_token;
use crate::streaming::user::lemma_token_located;
use crate::streaming::user::Client;
use crate::streaming::user::PersonalAccessToken;
use crate::streaming::user::User;
use crate::users::UserStatus;
use crate::wire::copy_bytes;
use crate::wire::is_valid_text;
use crate::wire::opt_bytes_view;
use crate::wire::same_bytes;
use crate::wire::valid_text;
use vstd::prelude::*;

verus! {

/// Nothing but the users differs between the two states.
pub open spec fn only_users(before: IggyShard, after: IggyShard) -> bool {
    &&& after.id == before.id
    &&& after.outbox == before.outbox
    &&& after.streams == before.streams
    &&& after.tokens == before.tokens
    &&& after.clients == before.clients
}

/// Nothing but the tokens differs between the two states.
pub open spec fn only_tokens(before: IggyShard, after: IggyShard) -> bool {
    &&& after.id == before.id
    &&& after.outbox == before.outbox
    &&& after.streams == before.streams
    &&& after.users == before.users
    &&& after.clients == before.clients
}

/// Nothing but the clients differs between the two states.
pub open spec fn only_clients(before: IggyShard, after: IggyShard) -> bool {
    &&& after.id == before.id
    &&& after.outbox == before.outbox
    &&& after.streams == before.streams
    &&& after.users == before.users
    &&& after.tokens == before.tokens
}

/// Nothing but the user at index `i` differs between the two states, and
/// that user has kept its id.
pub open spec fn only_user(before: IggyShard, after: IggyShard, i: int) -> bool {
    &&& only_users(before, after)
    &&& after.users@.len() == before.users@.len()
    &&& forall|k: int| 0 <= k < before.users@.len() && k != i ==> after.users@[k] == before.users@[k]
    &&& after.users@[i].id == before.users@[i].id
}

/// The clients are those of `before`; the one with the id `client_id`, if
/// there is one, is logged in as `user_id`.
pub open spec fn client_marked(
    before: Seq<Client>,
    after: Seq<Client>,
    client_id: u32,
    user_id: Option<u32>,
) -> bool {
    &&& after.len() == before.len()
    &&& forall|k: int|
        0 <= k < before.len() ==> (#[trigger] after[k]).client_id == before[k].client_id
            && after[k].user_id == if before[k].client_id == client_id {
            user_id
        } else {
            before[k].user_id
        }
}

/// The user that the session is logged in as, as a 32-bit id.
pub open spec fn session_user(session: Session) -> u32 {
    match session.user_id {
        Some(id) => id as u32,
        None => 0,
    }
}

/// The time at which a token created at `now` expires.
pub open spec fn expires_at(now: u64, expiry: Option<u32>) -> Option<u64> {
    match expiry {
        Some(seconds) => Some(
            if now + seconds > u64::MAX {
                u64::MAX
            } else {
                (now + seconds) as u64
            },
        ),
        None => None,
    }
}

/// What [`IggyShard::create_user`] does.
///
/// The session needs the right to manage users.  A name that is in use is
/// refused as `AlreadyExists`; where no id is left the result is
/// `ResourceBusy`; in these cases nothing changes.  Otherwise the user is
/// added after the users that were there with one more than the largest id in
/// use, and the result is that id.
pub open spec fn created_user(
    before: IggyShard,
    after: IggyShard,
    session: Session,
    username: Seq<u8>,
    password: Seq<u8>,
    status: UserStatus,
    permissions: Option<Permissions>,
    r: Result<u32, IggyError>,
) -> bool {
    match session.verdict(Some(Action::ManageUsers)) {
        Err(e) => r == Err::<u32, IggyError>(e) && after == before,
        Ok(_) => if has_name(before.users@, username) {
            r == Err::<u32, IggyError>(IggyError::AlreadyExists) && after == before
        } else if max_id(before.users@) == u32::MAX {
            r == Err::<u32, IggyError>(IggyError::ResourceBusy) && after == before
        } else {
            added_user(
                before,
                after,
                (max_id(before.users@) + 1) as u32,
                username,
                password,
                status,
                permissions,
            ) && r == Ok::<u32, IggyError>((max_id(before.users@) + 1) as u32)
        },
    }
}

/// Tells whether `after` is `before` with one more user at the end.
pub open spec fn added_user(
    before: IggyShard,
    after: IggyShard,
    id: u32,
    username: Seq<u8>,
    password: Seq<u8>,
    status: UserStatus,
    permissions: Option<Permissions>,
) -> bool {
    &&& only_users(before, after)
    &&& after.users@.len() == before.users@.len() + 1
    &&& after.users@.drop_last() == before.users@
    &&& after.users@.last().id == id
    &&& after.users@.last().username@ == username
    &&& after.users@.last().password@ == password
    &&& after.users@.last().status == status
    &&& after.users@.last().permissions == permissions
}

/// The tokens of `after` are those of `before` that do not belong to the
/// user, in no particular order.
pub open spec fn tokens_without(
    before: Seq<PersonalAccessToken>,
    after: Seq<PersonalAccessToken>,
    user_id: u32,
) -> bool {
    &&& forall|i: int|
        0 <= i < after.len() ==> (#[trigger] after[i]).user_id != user_id && exists|j: int|
            0 <= j < before.len() && before[j] == after[i]
    &&& forall|j: int|
        0 <= j < before.len() && (#[trigger] before[j]).user_id != user_id ==> exists|i: int|
            0 <= i < after.len() && after[i] == before[j]
}

/// What [`IggyShard::delete_user`] does.
///
/// The session needs the right to manage users.  Where the identifier names
/// no user the result is `NotFound` and nothing changes.  Otherwise the user
/// is gone, and so are its personal access tokens.
pub open spec fn deleted_user(
    before: IggyShard,
    after: IggyShard,
    session: Session,
    user_id: IdentifierView,
    r: Result<(), IggyError>,
) -> bool {
    match session.verdict(Some(Action::ManageUsers)) {
        Err(e) => r == Err::<(), IggyError>(e) && after == before,
        Ok(_) => match locate(before.users@, user_id) {
            None => r == Err::<(), IggyError>(IggyError::NotFound) && after == before,
            Some(i) => {
                &&& r is Ok
                &&& after.id == before.id
                &&& after.streams == before.streams
                &&& after.clients == before.clients
                &&& after.outbox == before.outbox
                &&& after.users@ == before.users@.remove(i)
                &&& tokens_without(before.tokens@, after.tokens@, before.users@[i].id)
            },
        },
    }
}

/// What [`IggyShard::update_user`] does.
///
/// The session needs the right to manage users and the user must exist.  A
/// new name that another user bears is refused as `AlreadyExists` and nothing
/// changes.  Otherwise the user has the new name and the new status, each
/// where one was given, and is otherwise as before.
pub open spec fn updated_user(
    before: IggyShard,
    after: IggyShard,
    session: Session,
    user_id: IdentifierView,
    username: Option<Seq<u8>>,
    status: Option<UserStatus>,
    r: Result<(), IggyError>,
) -> bool {
    match session.verdict(Some(Action::ManageUsers)) {
        Err(e) => r == Err::<(), IggyError>(e) && after == before,
        Ok(_) => match locate(before.users@, user_id) {
            None => r == Err::<(), IggyError>(IggyError::NotFound) && after == before,
            Some(i) => if username is Some && has_name(before.users@, username->Some_0)
                && before.users@[i].username@ != username->Some_0 {
                r == Err::<(), IggyError>(IggyError::AlreadyExists) && after == before
            } else {
                &&& r is Ok
                &&& only_user(before, after, i)
                &&& after.users@[i].username@ == match username {
                    Some(name) => name,
                    None => before.users@[i].username@,
                }
                &&& after.users@[i].status == match status {
                    Some(s) => s,
                    None => before.users@[i].status,
                }
                &&& after.users@[i].password == before.users@[i].password
                &&& after.users@[i].permissions == before.users@[i].permissions
            },
        },
    }
}

/// What [`IggyShard::update_permissions`] does.
///
/// The session needs the right to manage users and the user must exist.
/// Then the user has the given permissions and is otherwise as before.
pub open spec fn updated_permissions(
    before: IggyShard,
    after: IggyShard,
    session: Session,
    user_id: IdentifierView,
    permissions: Option<Permissions>,
    r: Result<(), IggyError>,
) -> bool {
    match session.verdict(Some(Action::ManageUsers)) {
        Err(e) => r == Err::<(), IggyError>(e) && after == before,
        Ok(_) => match locate(before.users@, user_id) {
            None => r == Err::<(), IggyError>(IggyError::NotFound) && after == before,
            Some(i) => {
                &&& r is Ok
                &&& only_user(before, after, i)
                &&& after.users@[i].username == before.users@[i].username
                &&& after.users@[i].status == before.users@[i].status
                &&& after.users@[i].password == before.users@[i].password
                &&& after.users@[i].permissions == permissions
            },
        },
    }
}

/// What [`IggyShard::change_password`] does.
///
/// A user must be logged in (`Unauthenticated`) and the user whose password
/// is to change must exist (`NotFound`).  Only that user itself and a user
/// with the right to manage users may change the password (`Unauthorized`),
/// and the current password must be given correctly (`Unauthenticated`).
/// Then the user has the new password and is otherwise as before.
pub open spec fn changed_password(
    before: IggyShard,
    after: IggyShard,
    session: Session,
    user_id: IdentifierView,
    current_password: Seq<u8>,
    new_password: Seq<u8>,
    r: Result<(), IggyError>,
) -> bool {
    match session.verdict(None) {
        Err(e) => r == Err::<(), IggyError>(e) && after == before,
        Ok(_) => match locate(before.users@, user_id) {
            None => r == Err::<(), IggyError>(IggyError::NotFound) && after == before,
            Some(i) => if session.user_id != Some(before.users@[i].id as u64) && session.verdict(
                Some(Action::ManageUsers),
            ) is Err {
                r == Err::<(), IggyError>(IggyError::Unauthorized) && after == before
            } else if before.users@[i].password@ != current_password {
                r == Err::<(), IggyError>(IggyError::Unauthenticated) && after == before
            } else {
                &&& r is Ok
                &&& only_user(before, after, i)
                &&& after.users@[i].username == before.users@[i].username
                &&& after.users@[i].status == before.users@[i].status
                &&& after.users@[i].permissions == before.users@[i].permissions
                &&& after.users@[i].password@ == new_password
            },
        },
    }
}

/// Tells whether the user may log in with the password.
pub open spec fn accepts(user: User, password: Seq<u8>) -> bool {
    user.password@ == password && user.status == UserStatus::Active
}

/// What [`IggyShard::login_user`] does.
///
/// Where there is no user of the name, the password is wrong or the user is
/// inactive, the result is `Unauthenticated` and nothing changes.  Otherwise
/// the session is that of the user, with the user's permissions, the client
/// of the session is marked as logged in, and the result is the id of the
/// user.
pub open spec fn logged_in(
    before: IggyShard,
    after: IggyShard,
    session_before: Session,
    session_after: Session,
    username: Seq<u8>,
    password: Seq<u8>,
    r: Result<u32, IggyError>,
) -> bool {
    if has_name(before.users@, username) && accepts(
        before.users@[index_of_name(before.users@, username)],
        password,
    ) {
        let user = before.users@[index_of_name(before.users@, username)];
        &&& r == Ok::<u32, IggyError>(user.id)
        &&& entered(before, after, session_before, session_after, user)
    } else {
        r == Err::<u32, IggyError>(IggyError::Unauthenticated) && after == before && session_after
            == session_before
    }
}

/// The session has become that of `user`, and the client of the session is
/// marked as logged in.
pub open spec fn entered(
    before: IggyShard,
    after: IggyShard,
    session_before: Session,
    session_after: Session,
    user: User,
) -> bool {
    &&& session_after == (Session {
        client_id: session_before.client_id,
        user_id: Some(user.id as u64),
        authenticated: true,
        permissions: user.permissions,
    })
    &&& only_clients(before, after)
    &&& client_marked(before.clients@, after.clients@, session_before.client_id, Some(user.id))
}

/// What [`IggyShard::logout_user`] does.
///
/// Where nobody is logged in the result is `Unauthenticated` and nothing
/// changes.  Otherwise the client of the session is marked as not logged in.
pub open spec fn logged_out(before: IggyShard, after: IggyShard, session: Session, r: Result<(), IggyError>) -> bool {
    match session.verdict(None) {
        Err(e) => r == Err::<(), IggyError>(e) && after == before,
        Ok(_) => r is Ok && only_clients(before, after) && client_marked(
            before.clients@,
            after.clients@,
            session.client_id,
            None,
        ),
    }
}

/// What [`IggyShard::create_personal_access_token`] does.
///
/// A user must be logged in.  Secret material that is empty or longer than
/// 255 bytes is refused as `InvalidConfiguration`.  A name that the user has
/// used for a token, and a secret that is in use, are refused as
/// `AlreadyExists`.  In these cases nothing changes.  Otherwise the token is
/// added for the user; it expires `expiry` seconds after `now`, or never.
pub open spec fn created_token(
    before: IggyShard,
    after: IggyShard,
    session: Session,
    name: Seq<u8>,
    expiry: Option<u32>,
    secret: Seq<u8>,
    now: u64,
    r: Result<(), IggyError>,
) -> bool {
    match session.verdict(None) {
        Err(e) => r == Err::<(), IggyError>(e) && after == before,
        Ok(_) => if !valid_text(secret) {
            r == Err::<(), IggyError>(IggyError::InvalidConfiguration) && after == before
        } else if has_token(before.tokens@, session_user(session), name) || has_secret(
            before.tokens@,
            secret,
        ) {
            r == Err::<(), IggyError>(IggyError::AlreadyExists) && after == before
        } else {
            &&& r is Ok
            &&& only_tokens(before, after)
            &&& after.tokens@.len() == before.tokens@.len() + 1
            &&& after.tokens@.drop_last() == before.tokens@
            &&& after.tokens@.last().user_id == session_user(session)
            &&& after.tokens@.last().name@ == name
            &&& after.tokens@.last().token@ == secret
            &&& after.tokens@.last().expiry == expires_at(now, expiry)
        },
    }
}

/// What [`IggyShard::delete_personal_access_token`] does.
///
/// A user must be logged in.  Where the user has no token of the name the
/// result is `NotFound` and nothing changes.  Otherwise that token is gone.
pub open spec fn deleted_token(
    before: IggyShard,
    after: IggyShard,
    session: Session,
    name: Seq<u8>,
    r: Result<(), IggyError>,
) -> bool {
    match session.verdict(None) {
        Err(e) => r == Err::<(), IggyError>(e) && after == before,
        Ok(_) => if has_token(before.tokens@, session_user(session), name) {
            r is Ok && only_tokens(before, after) && after.tokens@ == before.tokens@.remove(
                index_of_token(before.tokens@, session_user(session), name),
            )
        } else {
            r == Err::<(), IggyError>(IggyError::NotFound) && after == before
        },
    }
}

/// The index of the user that a token with the secret logs in at the time
/// `now`, if any: the token must exist and not have expired, and its owner
/// must exist and be active.
pub open spec fn token_owner(shard: IggyShard, secret: Seq<u8>, now: u64) -> Option<int> {
    if !has_secret(shard.tokens@, secret) {
        None
    } else {
        let token = shard.tokens@[index_of_secret(shard.tokens@, secret)];
        if token.expired(now) || !has_id(shard.users@, token.user_id) {
            None
        } else {
            let i = index_of_id(shard.users@, token.user_id);
            if shard.users@[i].status == UserStatus::Active {
                Some(i)
            } else {
                None
            }
        }
    }
}

/// What [`IggyShard::login_with_personal_access_token`] does.
///
/// Where the secret logs nobody in, the result is `Unauthenticated` and
/// nothing changes.  Otherwise the session is that of the owner of the token,
/// the client of the session is marked as logged in, and the result is the
/// id of the owner.
pub open spec fn logged_in_with_token(
    before: IggyShard,
    after: IggyShard,
    session_before: Session,
    session_after: Session,
    secret: Seq<u8>,
    now: u64,
    r: Result<u32, IggyError>,
) -> bool {
    match token_owner(before, secret, now) {
        Some(i) => r == Ok::<u32, IggyError>(before.users@[i].id) && entered(
            before,
            after,
            session_before,
            session_after,
            before.users@[i],
        ),
        None => r == Err::<u32, IggyError>(IggyError::Unauthenticated) && after == before
            && session_after == session_before,
    }
}

impl User {
    /// Gives the user a new name.
    pub fn set_username(&mut self, username: Vec<u8>)
        ensures
            final(self).id == old(self).id,
            final(self).username == username,
            final(self).password == old(self).password,
            final(self).status == old(self).status,
            final(self).permissions == old(self).permissions,
    {
        self.username = username;
    }

    /// Gives the user a new status.
    pub fn set_status(&mut self, status: UserStatus)
        ensures
            final(self).id == old(self).id,
            final(self).username == old(self).username,
            final(self).password == old(self).password,
            final(self).status == status,
            final(self).permissions == old(self).permissions,
    {
        self.status = status;
    }

    /// Gives the user a new password.
    pub fn set_password(&mut self, password: Vec<u8>)
        ensures
            final(self).id == old(self).id,
            final(self).username == old(self).username,
            final(self).password == password,
            final(self).status == old(self).status,
            final(self).permissions == old(self).permissions,
    {
        self.password = password;
    }

    /// Gives the user new permissions.
    pub fn set_permissions(&mut self, permissions: Option<Permissions>)
        ensures
            final(self).id == old(self).id,
            final(self).username == old(self).username,
            final(self).password == old(self).password,
            final(self).status == old(self).status,
            final(self).permissions == permissions,
    {
        self.permissions = permissions;
    }
}

impl IggyShard {
    /// Finds a user for reading.  The session needs the right to read users.
    pub fn find_user(&self, session: &Session, user_id: &Identifier) -> (r: Result<usize, IggyError>)
        requires
            self.wf(),
        ensures
            match r {
                Ok(i) => session.verdict(Some(Action::ReadUsers)) is Ok && locate(
                    self.users@,
                    user_id@,
                ) == Some(i as int) && i < self.users@.len(),
                Err(e) => match session.verdict(Some(Action::ReadUsers)) {
                    Err(refused) => e == refused,
                    Ok(_) => e == IggyError::NotFound && locate(self.users@, user_id@) is None,
                },
            },
    {
        session.authorize(Some(Action::ReadUsers))?;
        match find(&self.users, user_id) {
            Some(i) => Ok(i),
            None => Err(IggyError::NotFound),
        }
    }

    /// Checks that the session may read the users.
    pub fn get_users(&self, session: &Session) -> (r: Result<(), IggyError>)
        ensures
            r == session.verdict(Some(Action::ReadUsers)),
    {
        session.authorize(Some(Action::ReadUsers))
    }

    /// Creates the first user of a broker, with all permissions.  Where a
    /// user exists already the result is `AlreadyExists` and nothing changes.
    pub fn create_root_user(&mut self, username: &Vec<u8>, password: &Vec<u8>) -> (r: Result<
        u32,
        IggyError,
    >)
        requires
            old(self).wf(),
        ensures
            final(self).wf(),
            if old(self).users@.len() > 0 {
                r == Err::<u32, IggyError>(IggyError::AlreadyExists) && *final(self) == *old(self)
            } else {
                r == Ok::<u32, IggyError>(1) && added_user(
                    *old(self),
                    *final(self),
                    1,
                    username@,
                    password@,
                    UserStatus::Active,
                    Some(Permissions::spec_all()),
                )
            },
    {
        if self.users.len() > 0 {
            return Err(IggyError::AlreadyExists);
        }
        let user = User {
            id: 1,
            username: copy_bytes(username),
            password: copy_bytes(password),
            status: UserStatus::Active,
            permissions: Some(Permissions::all()),
        };
        let ghost before = self.users@;
        self.users.push(user);
        proof {
            assert(self.users@.drop_last() =~= before);
        }
        Ok(1)
    }

    /// Creates a user and returns its id.
    pub fn create_user(
        &mut self,
        session: &Session,
        username: &Vec<u8>,
        password: &Vec<u8>,
        status: UserStatus,
        permissions: Option<Permissions>,
    ) -> (r: Result<u32, IggyError>)
        requires
            old(self).wf(),
        ensures
            final(self).wf(),
            created_user(
                *old(self),
                *final(self),
                *session,
                username@,
                password@,
                status,
                permissions,
                r,
            ),
    {
        session.authorize(Some(Action::ManageUsers))?;
        if find_by_name(&self.users, username.as_slice()).is_some() {
            return Err(IggyError::AlreadyExists);
        }
        let id = match next_id(&self.users) {
            Some(id) => id,
            None => { return Err(IggyError::ResourceBusy); },
        };
        let user = User {
            id,
            username: copy_bytes(username),
            password: copy_bytes(password),
            status,
            permissions,
        };
        let ghost before = self.users@;
        proof {
            lemma_pushed_distinct(before, user);
        }
        self.users.push(user);
        proof {
            assert(self.users@.drop_last() =~= before);
        }
        Ok(id)
    }

    /// Deletes a user and its personal access tokens.
    pub fn delete_user(&mut self, session: &Session, user_id: &Identifier) -> (r: Result<
        (),
        IggyError,
    >)
        requires
            old(self).wf(),
        ensures
            final(self).wf(),
            deleted_user(*old(self), *final(self), *session, user_id@, r),
    {
        session.authorize(Some(Action::ManageUsers))?;
        let i = match find(&self.users, user_id) {
            Some(i) => i,
            None => { return Err(IggyError::NotFound); },
        };
        let id = self.users[i].id;
        let ghost before = self.users@;
        self.users.remove(i);
        proof {
            lemma_removed_distinct(before, i as int);
        }
        self.drop_tokens_of(id);
        Ok(())
    }

    /// Removes the personal access tokens of a user.
    fn drop_tokens_of(&mut self, user_id: u32)
        requires
            distinct_tokens(old(self).tokens@),
        ensures
            final(self).id == old(self).id,
            final(self).streams == old(self).streams,
            final(self).users == old(self).users,
            final(self).clients == old(self).clients,
            final(self).outbox == old(self).outbox,
            distinct_tokens(final(self).tokens@),
            tokens_without(old(self).tokens@, final(self).tokens@, user_id),
    {
        let ghost before = self.tokens@;
        let mut kept: Vec<PersonalAccessToken> = Vec::new();
        let ghost mut origin: Seq<int> = Seq::empty();
        while self.tokens.len() > 0
            invariant
                self.id == old(self).id,
                self.streams == old(self).streams,
                self.users == old(self).users,
                self.clients == old(self).clients,
                self.outbox == old(self).outbox,
                before == old(self).tokens@,
                distinct_tokens(before),
                self.tokens@.len() <= before.len(),
                self.tokens@ == before.take(self.tokens@.len() as int),
                origin.len() == kept@.len(),
                forall|k: int|
                    0 <= k < kept@.len() ==> self.tokens@.len() <= (#[trigger] origin[k])
                        < before.len() && kept@[k] == before[origin[k]] && kept@[k].user_id
                        != user_id,
                forall|a: int, b: int| 0 <= a < b < origin.len() ==> origin[a] > origin[b],
                forall|j: int|
                    self.tokens@.len() <= j < before.len() && (#[trigger] before[j]).user_id
                        != user_id ==> exists|k: int| 0 <= k < kept@.len() && kept@[k] == before[j],
            decreases self.tokens@.len(),
        {
            let ghost len = self.tokens@.len() as int;
            let ghost kept_before = kept@;
            let token = self.tokens.pop().unwrap();
            proof {
                assert(token == before[len - 1]);
                assert(self.tokens@ =~= before.take(len - 1));
            }
            if token.user_id != user_id {
                kept.push(token);
                proof {
                    origin = origin.push(len - 1);
                    assert forall|j: int|
                        self.tokens@.len() <= j < before.len() && (#[trigger] before[j]).user_id
                            != user_id implies exists|k: int|
                        0 <= k < kept@.len() && kept@[k] == before[j] by {
                        if j == len - 1 {
                            assert(kept@[kept@.len() - 1] == before[j]);
                        } else {
                            let k = choose|k: int|
                                0 <= k < kept_before.len() && kept_before[k] == before[j];
                            assert(kept@[k] == before[j]);
                        }
                    }
                }
            } else {
                proof {
                    assert forall|j: int|
                        self.tokens@.len() <= j < before.len() && (#[trigger] before[j]).user_id
                            != user_id implies exists|k: int|
                        0 <= k < kept@.len() && kept@[k] == before[j] by {
                        let k = choose|k: int|
                            0 <= k < kept_before.len() && kept_before[k] == before[j];
                        assert(kept@[k] == before[j]);
                    }
                }
            }
        }
        proof {
            assert forall|a: int, b: int| 0 <= a < b < kept@.len() implies (
            #[trigger] kept@[a]).token@ != (#[trigger] kept@[b]).token@ && !(kept@[a].user_id
                == kept@[b].user_id && kept@[a].name@ == kept@[b].name@) by {
                assert(origin[a] > origin[b]);
                assert(before[origin[b]].token@ != before[origin[a]].token@);
            }
            assert forall|i: int| 0 <= i < kept@.len() implies (#[trigger] kept@[i]).user_id
                != user_id && exists|j: int| 0 <= j < before.len() && before[j] == kept@[i] by {
                assert(before[origin[i]] == kept@[i]);
            }
        }
        self.tokens = kept;
    }

    /// Changes the name or the status of a user.
    pub fn update_user(
        &mut self,
        session: &Session,
        user_id: &Identifier,
        username: &Option<Vec<u8>>,
        status: Option<UserStatus>,
    ) -> (r: Result<(), IggyError>)
        requires
            old(self).wf(),
        ensures
            final(self).wf(),
            updated_user(
                *old(self),
                *final(self),
                *session,
                user_id@,
                opt_bytes_view(*username),
                status,
                r,
            ),
    {
        session.authorize(Some(Action::ManageUsers))?;
        let i = match find(&self.users, user_id) {
            Some(i) => i,
            None => { return Err(IggyError::NotFound); },
        };
        let ghost before = self.users@;
        match username {
            Some(name) => {
                match find_by_name(&self.users, name.as_slice()) {
                    Some(j) => {
                        if j != i {
                            proof {
                                lemma_located(self.users@, i as int);
                            }
                            return Err(IggyError::AlreadyExists);
                        }
                    },
                    None => {},
                }
                self.users[i].set_username(copy_bytes(name));
                proof {
                    assert forall|k: int| 0 <= k < before.len() && k != i implies (
                    #[trigger] before[k]).spec_name() != self.users@[i as int].spec_name() by {
                        if before[k].spec_name() == name@ {
                            lemma_located(before, k);
                        }
                    }
                    lemma_renamed_distinct(before, self.users@, i as int);
                }
            },
            None => {},
        }
        let ghost renamed = self.users@;
        match status {
            Some(s) => {
                self.users[i].set_status(s);
                proof {
                    lemma_updated_distinct(renamed, self.users@, i as int);
                }
            },
            None => {},
        }
        Ok(())
    }

    /// Replaces the permissions of a user.
    pub fn update_permissions(
        &mut self,
        session: &Session,
        user_id: &Identifier,
        permissions: Option<Permissions>,
    ) -> (r: Result<(), IggyError>)
        requires
            old(self).wf(),
        ensures
            final(self).wf(),
            updated_permissions(*old(self), *final(self), *session, user_id@, permissions, r),
    {
        session.authorize(Some(Action::ManageUsers))?;
        let i = match find(&self.users, user_id) {
            Some(i) => i,
            None => { return Err(IggyError::NotFound); },
        };
        let ghost before = self.users@;
        self.users[i].set_permissions(permissions);
        proof {
            lemma_updated_distinct(before, self.users@, i as int);
        }
        Ok(())
    }

    /// Changes the password of a user.
    pub fn change_password(
        &mut self,
        session: &Session,
        user_id: &Identifier,
        current_password: &Vec<u8>,
        new_password: &Vec<u8>,
    ) -> (r: Result<(), IggyError>)
        requires
            old(self).wf(),
        ensures
            final(self).wf(),
            changed_password(
                *old(self),
                *final(self),
                *session,
                user_id@,
                current_password@,
                new_password@,
                r,
            ),
    {
        session.authorize(None)?;
        let i = match find(&self.users, user_id) {
            Some(i) => i,
            None => { return Err(IggyError::NotFound); },
        };
        let own = match session.user_id {
            Some(id) => id == self.users[i].id as u64,
            None => false,
        };
        if !own && session.authorize(Some(Action::ManageUsers)).is_err() {
            return Err(IggyError::Unauthorized);
        }
        if !same_bytes(self.users[i].password.as_slice(), current_password.as_slice()) {
            return Err(IggyError::Unauthenticated);
        }
        let ghost before = self.users@;
        self.users[i].set_password(copy_bytes(new_password));
        proof {
            lemma_updated_distinct(before, self.users@, i as int);
        }
        Ok(())
    }

    /// Marks the client with the id, if it is connected, as logged in as the
    /// user, or as not logged in.
    fn mark_client(&mut self, client_id: u32, user_id: Option<u32>)
        requires
            distinct_clients(old(self).clients@),
        ensures
            only_clients(*old(self), *final(self)),
            distinct_clients(final(self).clients@),
            client_marked(old(self).clients@, final(self).clients@, client_id, user_id),
    {
        let ghost before = self.clients@;
        let mut i: usize = 0;
        while i < self.clients.len()
            invariant
                i <= self.clients@.len(),
                only_clients(*old(self), *self),
                before == old(self).clients@,
                self.clients@.len() == before.len(),
                forall|k: int|
                    0 <= k < before.len() ==> (#[trigger] self.clients@[k]).client_id
                        == before[k].client_id,
                forall|k: int|
                    0 <= k < i ==> (#[trigger] self.clients@[k]).user_id == if before[k].client_id
                        == client_id {
                        user_id
                    } else {
                        before[k].user_id
                    },
                forall|k: int| i <= k < before.len() ==> self.clients@[k] == before[k],
            decreases self.clients@.len() - i,
        {
            let client = self.clients[i];
            if client.client_id == client_id {
                self.clients[i] = Client { client_id, user_id };
            }
            i += 1;
        }
        proof {
            let after = self.clients@;
            assert forall|a: int, b: int| 0 <= a < b < after.len() implies (
            #[trigger] after[a]).client_id != (#[trigger] after[b]).client_id by {
                assert(before[a].client_id != before[b].client_id);
            }
        }
    }

    /// Logs a user in by name and password.
    pub fn login_user(&mut self, username: &Vec<u8>, password: &Vec<u8>, session: &mut Session) -> (r:
        Result<u32, IggyError>)
        requires
            old(self).wf(),
            old(session).wf(),
        ensures
            final(self).wf(),
            final(session).wf(),
            logged_in(
                *old(self),
                *final(self),
                *old(session),
                *final(session),
                username@,
                password@,
                r,
            ),
    {
        let i = match find_by_name(&self.users, username.as_slice()) {
            Some(i) => i,
            None => { return Err(IggyError::Unauthenticated); },
        };
        let user = &self.users[i];
        if !same_bytes(user.password.as_slice(), password.as_slice()) {
            return Err(IggyError::Unauthenticated);
        }
        match user.status {
            UserStatus::Active => {},
            UserStatus::Inactive => { return Err(IggyError::Unauthenticated); },
        }
        let id = user.id;
        let permissions = user.permissions;
        session.set_user(id, permissions);
        self.mark_client(session.client_id, Some(id));
        Ok(id)
    }

    /// Logs the user of the session out, as far as the shard's own records
    /// go; the session itself is cleared by the caller.
    pub fn logout_user(&mut self, session: &Session) -> (r: Result<(), IggyError>)
        requires
            old(self).wf(),
        ensures
            final(self).wf(),
            logged_out(*old(self), *final(self), *session, r),
    {
        session.authorize(None)?;
        self.mark_client(session.client_id, None);
        Ok(())
    }

    /// The id of the user whose personal access tokens are to be listed: the
    /// user of the session.
    pub fn get_personal_access_tokens(&self, session: &Session) -> (r: Result<u32, IggyError>)
        ensures
            match session.verdict(None) {
                Ok(_) => r == Ok::<u32, IggyError>(session_user(*session)),
                Err(e) => r == Err::<u32, IggyError>(e),
            },
    {
        session.authorize(None)?;
        Ok(user_of(session))
    }

    /// Creates a personal access token for the user of the session, with
    /// the given secret.
    pub fn create_personal_access_token(
        &mut self,
        session: &Session,
        name: &Vec<u8>,
        expiry: Option<u32>,
        secret: &Vec<u8>,
        now: u64,
    ) -> (r: Result<(), IggyError>)
        requires
            old(self).wf(),
        ensures
            final(self).wf(),
            created_token(*old(self), *final(self), *session, name@, expiry, secret@, now, r),
    {
        session.authorize(None)?;
        if !is_valid_text(secret) {
            return Err(IggyError::InvalidConfiguration);
        }
        let owner = user_of(session);
        if self.find_token(owner, name.as_slice()).is_some() || self.find_secret(
            secret.as_slice(),
        ).is_some() {
            return Err(IggyError::AlreadyExists);
        }
        let expires = match expiry {
            Some(seconds) => Some(
                if seconds as u64 > u64::MAX - now {
                    u64::MAX
                } else {
                    now + seconds as u64
                },
            ),
            None => None,
        };
        let token = PersonalAccessToken {
            user_id: owner,
            name: copy_bytes(name),
            token: copy_bytes(secret),
            expiry: expires,
        };
        let ghost before = self.tokens@;
        self.tokens.push(token);
        proof {
            let after = self.tokens@;
            assert(after.drop_last() =~= before);
            assert forall|a: int, b: int| 0 <= a < b < after.len() implies (
            #[trigger] after[a]).token@ != (#[trigger] after[b]).token@ && !(after[a].user_id
                == after[b].user_id && after[a].name@ == after[b].name@) by {
                if b < before.len() {
                    assert(before[a].token@ != before[b].token@);
                } else {
                    assert(after[a] == before[a]);
                }
            }
        }
        Ok(())
    }

    /// Deletes the personal access token of the given name that the user of
    /// the session has.
    pub fn delete_personal_access_token(&mut self, session: &Session, name: &Vec<u8>) -> (r: Result<
        (),
        IggyError,
    >)
        requires
            old(self).wf(),
        ensures
            final(self).wf(),
            deleted_token(*old(self), *final(self), *session, name@, r),
    {
        session.authorize(None)?;
        let i = match self.find_token(user_of(session), name.as_slice()) {
            Some(i) => i,
            None => { return Err(IggyError::NotFound); },
        };
        let ghost before = self.tokens@;
        self.tokens.remove(i);
        proof {
            let after = self.tokens@;
            assert forall|a: int, b: int| 0 <= a < b < after.len() implies (
            #[trigger] after[a]).token@ != (#[trigger] after[b]).token@ && !(after[a].user_id
                == after[b].user_id && after[a].name@ == after[b].name@) by {
                let x = if a < i { a } else { a + 1 };
                let y = if b < i { b } else { b + 1 };
                assert(after[a] == before[x]);
                assert(after[b] == before[y]);
                assert(before[x].token@ != before[y].token@);
            }
        }
        Ok(())
    }

    /// Finds the token of the given name that the user has.
    pub fn find_token(&self, user_id: u32, name: &[u8]) -> (r: Option<usize>)
        requires
            distinct_tokens(self.tokens@),
        ensures
            match r {
                Some(i) => has_token(self.tokens@, user_id, name@) && index_of_token(
                    self.tokens@,
                    user_id,
                    name@,
                ) == i && i < self.tokens@.len(),
                None => !has_token(self.tokens@, user_id, name@),
            },
    {
        let mut i: usize = 0;
        while i < self.tokens.len()
            invariant
                i <= self.tokens@.len(),
                distinct_tokens(self.tokens@),
                forall|k: int|
                    0 <= k < i ==> !((#[trigger] self.tokens@[k]).user_id == user_id
                        && self.tokens@[k].name@ == name@),
            decreases self.tokens@.len() - i,
        {
            if self.tokens[i].user_id == user_id && same_bytes(
                self.tokens[i].name.as_slice(),
                name,
            ) {
                proof {
                    lemma_token_located(self.tokens@, i as int);
                }
                return Some(i);
            }
            i += 1;
        }
        None
    }

    /// Finds the token with the given secret.
    pub fn find_secret(&self, secret: &[u8]) -> (r: Option<usize>)
        requires
            distinct_tokens(self.tokens@),
        ensures
            match r {
                Some(i) => has_secret(self.tokens@, secret@) && index_of_secret(
                    self.tokens@,
                    secret@,
                ) == i && i < self.tokens@.len(),
                None => !has_secret(self.tokens@, secret@),
            },
    {
        let mut i: usize = 0;
        while i < self.tokens.len()
            invariant
                i <= self.tokens@.len(),
                distinct_tokens(self.tokens@),
                forall|k: int| 0 <= k < i ==> (#[trigger] self.tokens@[k]).token@ != secret@,
            decreases self.tokens@.len() - i,
        {
            if same_bytes(self.tokens[i].token.as_slice(), secret) {
                proof {
                    lemma_token_located(self.tokens@, i as int);
                }
                return Some(i);
            }
            i += 1;
        }
        None
    }

    /// Logs a user in by a personal access token.
    pub fn login_with_personal_access_token(
        &mut self,
        secret: &Vec<u8>,
        session: &mut Session,
        now: u64,
    ) -> (r: Result<u32, IggyError>)
        requires
            old(self).wf(),
            old(session).wf(),
        ensures
            final(self).wf(),
            final(session).wf(),
            logged_in_with_token(
                *old(self),
                *final(self),
                *old(session),
                *final(session),
                secret@,
                now,
                r,
            ),
    {
        let t = match self.find_secret(secret.as_slice()) {
            Some(t) => t,
            None => { return Err(IggyError::Unauthenticated); },
        };
        if self.tokens[t].is_expired(now) {
            return Err(IggyError::Unauthenticated);
        }
        let i = match find_by_id(&self.users, self.tokens[t].user_id) {
            Some(i) => i,
            None => { return Err(IggyError::Unauthenticated); },
        };
        let user = &self.users[i];
        match user.status {
            UserStatus::Active => {},
            UserStatus::Inactive => { return Err(IggyError::Unauthenticated); },
        }
        let id = user.id;
        let permissions = user.permissions;
        session.set_user(id, permissions);
        self.mark_client(session.client_id, Some(id));
        Ok(id)
    }
}

/// The user that the session is logged in as, as a 32-bit id.
pub fn user_of(session: &Session) -> (r: u32)
    ensures
        r == session_user(*session),
{
    match session.user_id {
        Some(id) => id as u32,
        None => 0,
    }
}

} // verus!
