//! Principals, credentials and the authentication gate.

use vstd::prelude::*;

use crate::errors::GatewayError;
use crate::strutil::str_eq;

verus! {

#[derive(Clone, Copy, Debug, PartialEq, Eq, Structural)]
pub enum UserStatus {
    Active,
    Inactive,
    Blocked,
}

impl UserStatus {
    /// The status a stored row's text column stands for; anything unknown
    /// reads as Inactive.
    pub open spec fn spec_from_str(s: Seq<char>) -> UserStatus {
        if s == "Active"@ {
            UserStatus::Active
        } else if s == "Blocked"@ {
            UserStatus::Blocked
        } else {
            UserStatus::Inactive
        }
    }

    pub fn from_str(s: &str) -> (r: UserStatus)
        ensures
            r == UserStatus::spec_from_str(s@),
    {
        if str_eq(s, "Active") {
            UserStatus::Active
        } else if str_eq(s, "Blocked") {
            UserStatus::Blocked
        } else {
            UserStatus::Inactive
        }
    }
}

/// The authenticated caller as the store holds it. `status` is kept as the
/// stored text; `created_at` is seconds since the epoch.
#[derive(Clone, Debug)]
pub struct User {
    pub id: String,
    pub username: String,
    pub api_key: String,
    pub status: String,
    pub rpm_limit: i64,
    pub token_quota: i64,
    pub token_used: i64,
    pub is_admin: bool,
    pub created_at: i64,
}

/// What the rest of a request needs to know about its caller.
#[derive(Clone, Debug)]
pub struct UserInfo {
    pub id: String,
    pub username: String,
    pub status: UserStatus,
}

/// The authentication gate over the row the credential resolved to (if any):
/// a missing row or a non-Active principal is refused.
pub fn authenticate(row: Option<User>) -> (r: Result<UserInfo, GatewayError>)
    ensures
        match row {
            None => r == Err::<UserInfo, GatewayError>(GatewayError::AuthFailure),
            Some(u) => {
                if u.status@ == "Active"@ {
                    &&& r matches Ok(info)
                    &&& info.id@ == u.id@
                    &&& info.username@ == u.username@
                    &&& info.status == UserStatus::Active
                } else {
                    r == Err::<UserInfo, GatewayError>(GatewayError::AuthFailure)
                }
            },
        },
{
    match row {
        None => Err(GatewayError::AuthFailure),
        Some(u) => {
            if str_eq(u.status.as_str(), "Active") {
                Ok(UserInfo { id: u.id, username: u.username, status: UserStatus::Active })
            } else {
                Err(GatewayError::AuthFailure)
            }
        },
    }
}

/// The admin gate: everything under the admin surface requires `is_admin`.
pub fn admin_gate(user: &User) -> (r: Result<(), GatewayError>)
    ensures
        user.is_admin ==> r == Ok::<(), GatewayError>(()),
        !user.is_admin ==> r == Err::<(), GatewayError>(GatewayError::PermissionDenied),
{
    if user.is_admin {
        Ok(())
    } else {
        Err(GatewayError::PermissionDenied)
    }
}

/// The admin login decision over the row the submitted key resolved to:
/// unknown keys are refused outright, known non-admin principals are
/// forbidden, and admins get their row back.
pub fn login_decision(row: Option<User>) -> (r: Result<User, GatewayError>)
    ensures
        match row {
            None => r == Err::<User, GatewayError>(GatewayError::AuthFailure),
            Some(u) => {
                if u.is_admin {
                    r matches Ok(v) && v == u
                } else {
                    r == Err::<User, GatewayError>(GatewayError::PermissionDenied)
                }
            },
        },
{
    match row {
        None => Err(GatewayError::AuthFailure),
        Some(u) => {
            if u.is_admin {
                Ok(u)
            } else {
                Err(GatewayError::PermissionDenied)
            }
        },
    }
}

} // verus!
