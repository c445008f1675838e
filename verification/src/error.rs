//! Error kinds reported to clients, each with a stable numeric code.

use vstd::prelude::*;

verus! {

/// The closed set of failures a command can end in.
///
/// Only the numeric code travels on the wire; code `0` is reserved for
/// success and never produced by [`IggyError::as_code`].
#[derive(Debug, Clone, Copy, PartialEq, Eq, Structural)]
pub enum IggyError {
    /// The frame or payload could not be decoded.
    InvalidCommand,
    /// The session carries no logged-in user.
    Unauthenticated,
    /// The logged-in user lacks the permission the operation needs.
    Unauthorized,
    /// The named resource does not exist.
    NotFound,
    /// A resource with the same id or name already exists.
    AlreadyExists,
    /// A configuration value is outside the range the broker supports.
    InvalidConfiguration,
    /// The resource is in use and cannot be changed right now.
    ResourceBusy,
    /// The storage layer reported a failure.
    StorageFailure,
    /// An unexpected condition inside the broker.
    Internal,
}

impl IggyError {
    /// The wire code of this error kind: the kinds are numbered densely from 1.
    pub open spec fn spec_code(self) -> u32 {
        match self {
            IggyError::InvalidCommand => 1,
            IggyError::Unauthenticated => 2,
            IggyError::Unauthorized => 3,
            IggyError::NotFound => 4,
            IggyError::AlreadyExists => 5,
            IggyError::InvalidConfiguration => 6,
            IggyError::ResourceBusy => 7,
            IggyError::StorageFailure => 8,
            IggyError::Internal => 9,
        }
    }

    /// The error kind that a wire code stands for, if any.
    pub open spec fn spec_from_code(code: u32) -> Option<IggyError> {
        if code == 1 {
            Some(IggyError::InvalidCommand)
        } else if code == 2 {
            Some(IggyError::Unauthenticated)
        } else if code == 3 {
            Some(IggyError::Unauthorized)
        } else if code == 4 {
            Some(IggyError::NotFound)
        } else if code == 5 {
            Some(IggyError::AlreadyExists)
        } else if code == 6 {
            Some(IggyError::InvalidConfiguration)
        } else if code == 7 {
            Some(IggyError::ResourceBusy)
        } else if code == 8 {
            Some(IggyError::StorageFailure)
        } else if code == 9 {
            Some(IggyError::Internal)
        } else {
            None
        }
    }

    /// Returns the stable numeric code sent in the status field of a reply.
    pub fn as_code(&self) -> (code: u32)
        ensures
            code == self.spec_code(),
            1 <= code <= 9,
    {
        match self {
            IggyError::InvalidCommand => 1,
            IggyError::Unauthenticated => 2,
            IggyError::Unauthorized => 3,
            IggyError::NotFound => 4,
            IggyError::AlreadyExists => 5,
            IggyError::InvalidConfiguration => 6,
            IggyError::ResourceBusy => 7,
            IggyError::StorageFailure => 8,
            IggyError::Internal => 9,
        }
    }

    /// Reads an error kind back from its numeric code.
    pub fn from_code(code: u32) -> (kind: Option<IggyError>)
        ensures
            kind == Self::spec_from_code(code),
            kind is Some <==> 1 <= code <= 9,
    {
        match code {
            1 => Some(IggyError::InvalidCommand),
            2 => Some(IggyError::Unauthenticated),
            3 => Some(IggyError::Unauthorized),
            4 => Some(IggyError::NotFound),
            5 => Some(IggyError::AlreadyExists),
            6 => Some(IggyError::InvalidConfiguration),
            7 => Some(IggyError::ResourceBusy),
            8 => Some(IggyError::StorageFailure),
            9 => Some(IggyError::Internal),
            _ => None,
        }
    }

    /// A short lower-case name for logs.
    pub fn as_str(&self) -> (name: &'static str)
        ensures
            name@ == self.spec_name(),
    {
        match self {
            IggyError::InvalidCommand => "invalid_command",
            IggyError::Unauthenticated => "unauthenticated",
            IggyError::Unauthorized => "unauthorized",
            IggyError::NotFound => "not_found",
            IggyError::AlreadyExists => "already_exists",
            IggyError::InvalidConfiguration => "invalid_configuration",
            IggyError::ResourceBusy => "resource_busy",
            IggyError::StorageFailure => "storage_failure",
            IggyError::Internal => "internal",
        }
    }

    /// The name that [`IggyError::as_str`] returns.
    pub open spec fn spec_name(self) -> Seq<char> {
        match self {
            IggyError::InvalidCommand => "invalid_command"@,
            IggyError::Unauthenticated => "unauthenticated"@,
            IggyError::Unauthorized => "unauthorized"@,
            IggyError::NotFound => "not_found"@,
            IggyError::AlreadyExists => "already_exists"@,
            IggyError::InvalidConfiguration => "invalid_configuration"@,
            IggyError::ResourceBusy => "resource_busy"@,
            IggyError::StorageFailure => "storage_failure"@,
            IggyError::Internal => "internal"@,
        }
    }

    /// Codes and kinds are in one-to-one correspondence: reading back the
    /// code of a kind gives that kind, and every code that names a kind is
    /// the code of that kind.
    pub proof fn lemma_code_bijection(kind: IggyError, code: u32)
        ensures
            Self::spec_from_code(kind.spec_code()) == Some(kind),
            Self::spec_from_code(code) is Some ==> Self::spec_from_code(code).unwrap().spec_code()
                == code,
    {
    }
}

} // verus!
