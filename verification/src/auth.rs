//! Who is asking: guests, bearer tokens and sessions.

use crate::conf::SESSION_MIN_TIME_BETWEEN_REFRESH;
use crate::masked_oid::RecordId;
use crate::types::{is_token, SessionToken, SessionTokenHash, blake2b_128};
use vstd::prelude::*;
use vstd::slice::slice_subrange;
use vstd::string::StringSliceAdditionalSpecFns;

verus! {

/// A request that carries no authorization.
#[derive(Clone, Copy, Debug)]
pub struct Guest;

/// A request carried an authorization where none is allowed.
#[derive(Clone, Copy, Debug)]
pub struct GuestRequired;

/// The authorization presented with a request, hashed away safely. May or
/// may not be valid.
#[derive(Clone, Copy, Debug)]
pub struct Authorization {
    pub session_id: SessionTokenHash,
}

/// A user whose session was found.
#[derive(Clone, Copy, Debug)]
pub struct AuthenticatedUser {
    pub id: RecordId,
}

/// Why a request was not authenticated.
#[derive(Clone, Copy, Debug, PartialEq, Eq, Structural)]
pub enum AuthenticationError {
    Unauthenticated,
    Unexpected,
}

/// What to do with the session of a request that was found.
#[derive(Clone, Copy, Debug, PartialEq, Eq, Structural)]
pub enum SessionUse {
    /// The session was last used long enough ago: mark it as used now.
    Refresh,
    /// The session was used lately: leave it as it is.
    Keep,
    /// The session was last used in the future: leave it, and warn.
    KeepFromFuture,
}

/// The bytes of `Bearer `, which stand before the token.
pub open spec fn bearer_prefix() -> Seq<u8> {
    seq![0x42u8, 0x65u8, 0x61u8, 0x72u8, 0x65u8, 0x72u8, 0x20u8]
}

/// The token in the value of an `Authorization` header: what follows
/// `Bearer `, if that is a token.
pub open spec fn bearer_token(header: Seq<u8>) -> Option<Seq<u8>> {
    if header.len() >= 7 && header.subrange(0, 7) == bearer_prefix() && is_token(
        header.subrange(7, header.len() as int),
    ) {
        Some(header.subrange(7, header.len() as int))
    } else {
        None
    }
}

/// What to do with a session that was last used at `last_used` when it is
/// `now`, both in milliseconds since the Unix epoch.
pub open spec fn session_use_spec(now: i64, last_used: i64) -> SessionUse {
    if now < last_used {
        SessionUse::KeepFromFuture
    } else if now - last_used >= SESSION_MIN_TIME_BETWEEN_REFRESH * 1000 {
        SessionUse::Refresh
    } else {
        SessionUse::Keep
    }
}

impl Guest {
    /// Takes a request for a guest's if it carries no authorization.
    pub fn from_request(has_authorization: bool) -> (result: Result<Guest, GuestRequired>)
        ensures
            result is Err <==> has_authorization,
    {
        if has_authorization {
            Err(GuestRequired)
        } else {
            Ok(Guest)
        }
    }
}

impl GuestRequired {
    /// The message shown to a registered user who asks for what only a
    /// guest may do.
    pub fn message(&self) -> (text: String)
        ensures
            text@ == "can't perform this action as a registered user"@,
    {
        String::from_str("can't perform this action as a registered user")
    }

    /// The HTTP status that goes with the error.
    pub fn status_code(&self) -> (code: u16)
        ensures
            code == 400,
    {
        400
    }
}

impl AuthenticationError {
    /// The HTTP status that goes with the error.
    pub open spec fn spec_status_code(&self) -> u16 {
        match self {
            AuthenticationError::Unauthenticated => 401,
            AuthenticationError::Unexpected => 500,
        }
    }

    /// The HTTP status that goes with the error.
    pub fn status_code(&self) -> (code: u16)
        ensures
            code == self.spec_status_code(),
    {
        match self {
            AuthenticationError::Unauthenticated => 401,
            AuthenticationError::Unexpected => 500,
        }
    }

    /// The message that describes the error.
    pub fn message(&self) -> (text: String)
        ensures
            *self == AuthenticationError::Unauthenticated ==> text@
                == "can't perform this action without authentication"@,
            *self == AuthenticationError::Unexpected ==> text@ == "unexpected error"@,
    {
        match self {
            AuthenticationError::Unauthenticated => String::from_str(
                "can't perform this action without authentication",
            ),
            AuthenticationError::Unexpected => String::from_str("unexpected error"),
        }
    }
}

/// Reads the authorization of a request from the value of its
/// `Authorization` header, if it has one that is text: the header must be
/// `Bearer ` and a token, and the authorization is the hash of the token.
pub fn authorization_from_request(header: Option<&str>) -> (result: Result<
    Authorization,
    AuthenticationError,
>)
    ensures
        match result {
            Ok(authorization) => header matches Some(value) && bearer_token(value.spec_bytes())
                matches Some(token) && authorization.session_id@ == blake2b_128(token),
            Err(error) => error == AuthenticationError::Unauthenticated && !(header matches Some(
                value,
            ) && bearer_token(value.spec_bytes()) is Some),
        },
{
    let value = match header {
        Some(value) => value,
        None => {
            return Err(AuthenticationError::Unauthenticated);
        },
    };
    let bytes = value.as_bytes();
    if bytes.len() < 7 {
        return Err(AuthenticationError::Unauthenticated);
    }
    if bytes[0] != 0x42 || bytes[1] != 0x65 || bytes[2] != 0x61 || bytes[3] != 0x72 || bytes[4]
        != 0x65 || bytes[5] != 0x72 || bytes[6] != 0x20 {
        assert(bytes@.subrange(0, 7) != bearer_prefix()) by {
            let head = bytes@.subrange(0, 7);
            if head == bearer_prefix() {
                assert(head[0] == bytes@[0] && head[1] == bytes@[1] && head[2] == bytes@[2]
                    && head[3] == bytes@[3] && head[4] == bytes@[4] && head[5] == bytes@[5]
                    && head[6] == bytes@[6]);
            }
        }
        return Err(AuthenticationError::Unauthenticated);
    }
    assert(bytes@.subrange(0, 7) =~= bearer_prefix());
    let rest = slice_subrange(bytes, 7, bytes.len());
    match SessionToken::from_bytes(rest) {
        Ok(token) => Ok(Authorization { session_id: token.hash() }),
        Err(_) => Err(AuthenticationError::Unauthenticated),
    }
}

/// Decides what to do with a session that was last used at `last_used` when
/// it is `now`, both in milliseconds since the Unix epoch.
pub fn session_use(now: i64, last_used: i64) -> (decision: SessionUse)
    ensures
        decision == session_use_spec(now, last_used),
{
    if now < last_used {
        SessionUse::KeepFromFuture
    } else {
        let idle: i128 = now as i128 - last_used as i128;
        if idle >= 86_400_000 {
            SessionUse::Refresh
        } else {
            SessionUse::Keep
        }
    }
}

/// Decides whether the user of a session is authenticated once the session
/// was marked as used: `matched` is the number of sessions that the update
/// matched, or nothing where the update failed. A failed update is let
/// pass; a session that is no longer there is not.
pub fn after_refresh(user: RecordId, matched: Option<u64>) -> (result: Result<
    AuthenticatedUser,
    AuthenticationError,
>)
    ensures
        match matched {
            Some(count) if count != 1 => result == Err::<AuthenticatedUser, AuthenticationError>(
                AuthenticationError::Unauthenticated,
            ),
            _ => result matches Ok(authenticated) && authenticated.id == user,
        },
{
    match matched {
        Some(count) => if count != 1 {
            Err(AuthenticationError::Unauthenticated)
        } else {
            Ok(AuthenticatedUser { id: user })
        },
        None => Ok(AuthenticatedUser { id: user }),
    }
}

} // verus!
