//! User creation and profile updates.
//!
//! An update runs in steps around the database: the request is validated
//! (`UserUpdate::validate`), the user is loaded and, where the request
//! changes the e-mail, the database is asked whether another user has it;
//! `plan_user_update` then decides the new settings or the error. A
//! password change is checked against the stored hash
//! (`check_current_password`) and the new password hashed before anything
//! is written.

use vstd::prelude::*;

use crate::errors::{validation_outcome, AppError};
use crate::ext::digests::bcrypt_verify_result;
use crate::models::user::{create_user_errors, CreateUserRequest, User, UserUpdate};
use crate::services::auth::{hash_password, refresh_accepts, verify_password};
use crate::text::{str_eq, to_string};

verus! {

/// The filters a user may choose as default.
pub open spec fn filter_allowed(v: Seq<char>) -> bool {
    v == "all"@ || v == "unread"@ || v == "read"@ || v == "starred"@
}

/// The sort orders a user may choose as default.
pub open spec fn sort_allowed(v: Seq<char>) -> bool {
    v == "oldest_first"@ || v == "newest_first"@
}

pub fn is_allowed_filter(v: &str) -> (r: bool)
    ensures
        r == filter_allowed(v@),
{
    str_eq(v, "all") || str_eq(v, "unread") || str_eq(v, "read") || str_eq(v, "starred")
}

pub fn is_allowed_sort(v: &str) -> (r: bool)
    ensures
        r == sort_allowed(v@),
{
    str_eq(v, "oldest_first") || str_eq(v, "newest_first")
}

/// The stored preferences of a user.
#[derive(Debug, Clone, PartialEq)]
pub struct UserSettings {
    pub email: String,
    pub timezone: String,
    pub default_filter: String,
    pub default_sort_order: String,
}

/// A password change: the current password to check and the new one.
#[derive(Debug, Clone, PartialEq)]
pub struct PasswordStep {
    pub current_password: String,
    pub new_password: String,
}

/// What an accepted update writes.
#[derive(Debug, Clone, PartialEq)]
pub struct UserUpdatePlan {
    pub settings: UserSettings,
    pub password: Option<PasswordStep>,
    /// The user's refresh tokens are revoked: a password change ends every
    /// session.
    pub revoke_refresh_tokens: bool,
}

/// `new` where present, else `old`.
pub open spec fn pick(old: Seq<char>, new: Option<String>) -> Seq<char> {
    match new {
        Some(v) => v@,
        None => old,
    }
}

/// The error an update meets, where it meets one, in the order the checks
/// run: a changed e-mail another user has, a default filter or sort order
/// outside the allowed values, a new password without the current one.
pub open spec fn update_error(req: UserUpdate, email_taken: bool) -> Option<AppError> {
    if req.email is Some && email_taken {
        Some(AppError::Conflict(arbitrary()))
    } else if req.default_filter matches Some(f) && !filter_allowed(f@) {
        Some(AppError::BadRequest(arbitrary()))
    } else if req.default_sort_order matches Some(o) && !sort_allowed(o@) {
        Some(AppError::BadRequest(arbitrary()))
    } else if req.new_password is Some && req.current_password is None {
        Some(AppError::BadRequest(arbitrary()))
    } else {
        None
    }
}

/// The error message an update meets, as `update_error` orders the checks.
pub open spec fn update_error_message(req: UserUpdate, email_taken: bool) -> Seq<char> {
    if req.email is Some && email_taken {
        "email already in use"@
    } else if req.default_filter matches Some(f) && !filter_allowed(f@) {
        "default_filter must be 'all', 'unread', 'read', or 'starred'"@
    } else if req.default_sort_order matches Some(o) && !sort_allowed(o@) {
        "default_sort_order must be 'oldest_first' or 'newest_first'"@
    } else {
        "current_password required"@
    }
}

/// The plan applies `req` to `user`: each field the request sets replaces
/// the stored one, and a new password comes with the current one and
/// revokes the user's refresh tokens.
pub open spec fn plan_applies(p: UserUpdatePlan, user: User, req: UserUpdate) -> bool {
    &&& p.settings.email@ == pick(user.email@, req.email)
    &&& p.settings.timezone@ == pick(user.timezone@, req.timezone)
    &&& p.settings.default_filter@ == pick(user.default_filter@, req.default_filter)
    &&& p.settings.default_sort_order@ == pick(user.default_sort_order@, req.default_sort_order)
    &&& match req.new_password {
        Some(n) => p.password matches Some(s) && s.new_password@ == n@ && (
        req.current_password matches Some(c) && s.current_password@ == c@),
        None => p.password is None,
    }
    &&& p.revoke_refresh_tokens == req.new_password is Some
}

/// An accepted update replaces exactly the settings it gives: the e-mail,
/// timezone, default filter and default sort order of the plan are the
/// requested ones where the request gives them and the user's own
/// otherwise; a plan carries a password step exactly when a new password
/// is requested.
pub proof fn lemma_user_update_replaces_given_settings(p: UserUpdatePlan, user: User, req: UserUpdate)
    requires
        plan_applies(p, user, req),
    ensures
        p.settings.email@ == (match req.email {
            Some(v) => v@,
            None => user.email@,
        }),
        p.settings.timezone@ == (match req.timezone {
            Some(v) => v@,
            None => user.timezone@,
        }),
        p.settings.default_filter@ == (match req.default_filter {
            Some(v) => v@,
            None => user.default_filter@,
        }),
        p.settings.default_sort_order@ == (match req.default_sort_order {
            Some(v) => v@,
            None => user.default_sort_order@,
        }),
        p.password is Some <==> req.new_password is Some,
        match (req.new_password, p.password) {
            (Some(n), Some(s)) => s.new_password@ == n@,
            _ => true,
        },
{
}

/// `got` is an error of the same kind as `expected`, with message `m`.
pub open spec fn same_error(got: AppError, expected: AppError, m: Seq<char>) -> bool {
    match (got, expected) {
        (AppError::Conflict(g), AppError::Conflict(_)) => g@ == m,
        (AppError::BadRequest(g), AppError::BadRequest(_)) => g@ == m,
        _ => false,
    }
}

/// Decides an update of `user` by `req` (already validated). `email_taken`
/// says whether another user has the e-mail the request sets.
pub fn plan_user_update(user: &User, req: UserUpdate, email_taken: bool) -> (r: Result<
    UserUpdatePlan,
    AppError,
>)
    ensures
        update_error(req, email_taken) is None ==> (r matches Ok(p) && plan_applies(p, *user, req)),
        update_error(req, email_taken) is Some ==> (r matches Err(got) && same_error(
            got,
            update_error(req, email_taken)->0,
            update_error_message(req, email_taken),
        )),
{
    let ghost req0 = req;
    if req.email.is_some() && email_taken {
        return Err(AppError::Conflict(to_string("email already in use")));
    }
    match &req.default_filter {
        Some(f) => {
            if !is_allowed_filter(f.as_str()) {
                return Err(
                    AppError::BadRequest(
                        to_string("default_filter must be 'all', 'unread', 'read', or 'starred'"),
                    ),
                );
            }
        },
        None => {},
    }
    match &req.default_sort_order {
        Some(o) => {
            if !is_allowed_sort(o.as_str()) {
                return Err(
                    AppError::BadRequest(
                        to_string("default_sort_order must be 'oldest_first' or 'newest_first'"),
                    ),
                );
            }
        },
        None => {},
    }
    let UserUpdate { email, timezone, default_filter, default_sort_order, current_password, new_password } =
        req;
    let revoke_refresh_tokens = new_password.is_some();
    let password = match new_password {
        Some(n) => match current_password {
            Some(c) => Some(PasswordStep { current_password: c, new_password: n }),
            None => {
                return Err(AppError::BadRequest(to_string("current_password required")));
            },
        },
        None => None,
    };
    let settings = UserSettings {
        email: match email {
            Some(v) => v,
            None => user.email.clone(),
        },
        timezone: match timezone {
            Some(v) => v,
            None => user.timezone.clone(),
        },
        default_filter: match default_filter {
            Some(v) => v,
            None => user.default_filter.clone(),
        },
        default_sort_order: match default_sort_order {
            Some(v) => v,
            None => user.default_sort_order.clone(),
        },
    };
    Ok(UserUpdatePlan { settings, password, revoke_refresh_tokens })
}

/// An update that sets no field meets no error and keeps every setting and
/// the password as they are.
pub proof fn lemma_empty_update_keeps_user(user: User, req: UserUpdate, email_taken: bool, p: UserUpdatePlan)
    requires
        req.email is None,
        req.timezone is None,
        req.default_filter is None,
        req.default_sort_order is None,
        req.new_password is None,
    ensures
        update_error(req, email_taken) is None,
        plan_applies(p, user, req) ==> p.settings.email@ == user.email@ && p.settings.timezone@
            == user.timezone@ && p.settings.default_filter@ == user.default_filter@
            && p.settings.default_sort_order@ == user.default_sort_order@ && p.password is None
            && !p.revoke_refresh_tokens,
{
}

/// A password change ends every session: the plan of an update that sets a
/// new password revokes the user's refresh tokens, and a token gone from the
/// store never refreshes.
pub proof fn lemma_password_change_revokes_sessions(
    user: User,
    req: UserUpdate,
    p: UserUpdatePlan,
    now_ms: i64,
)
    requires
        req.new_password is Some,
        plan_applies(p, user, req),
    ensures
        p.revoke_refresh_tokens,
        refresh_accepts(None, now_ms) is None,
{
}

/// Checks the current password of a password change against the stored
/// hash: a wrong password is `Unauthorized`.
pub fn check_current_password(current_password: &str, stored_hash: &str) -> (r: Result<(), AppError>)
    ensures
        match bcrypt_verify_result(current_password@, stored_hash@) {
            Ok(true) => r is Ok,
            Ok(false) => r matches Err(AppError::Unauthorized),
            Err(m) => r matches Err(AppError::Argon(e)) && e@ == m,
        },
{
    if verify_password(current_password, stored_hash)? {
        Ok(())
    } else {
        Err(AppError::Unauthorized)
    }
}

/// A new user's row: the e-mail and the hash of the password.
#[derive(Debug, Clone, PartialEq)]
pub struct NewUser {
    pub email: String,
    pub password_hash: String,
}

/// Checks a request to create a user and hashes its password: the request's
/// validation failures (a confirmation that differs from the password among
/// them), else the row to insert, whose hash verifies the password; hashing
/// can fail only with a hashing error.
pub fn prepare_new_user(req: CreateUserRequest) -> (r: Result<NewUser, AppError>)
    ensures
        create_user_errors(req.email@, req.password@, req.password_confirmation@).len() > 0
            ==> validation_outcome(
            match r {
                Ok(_) => Ok(()),
                Err(e) => Err(e),
            },
            create_user_errors(req.email@, req.password@, req.password_confirmation@),
        ),
        r matches Ok(u) ==> (create_user_errors(req.email@, req.password@, req.password_confirmation@).len()
            == 0 && u.email@ == req.email@ && bcrypt_verify_result(req.password@, u.password_hash@)
            == Ok::<bool, Seq<char>>(true)),
        create_user_errors(req.email@, req.password@, req.password_confirmation@).len() == 0
            ==> (r is Ok || r matches Err(AppError::Argon(_))),
{
    match req.validate() {
        Ok(()) => {},
        Err(e) => {
            return Err(e);
        },
    }
    if !str_eq(req.password.as_str(), req.password_confirmation.as_str()) {
        return Err(AppError::BadRequest(to_string("passwords do not match")));
    }
    let CreateUserRequest { email, password, password_confirmation } = req;
    let password_hash = hash_password(password)?;
    Ok(NewUser { email, password_hash })
}

/// A user record with both timestamps set to `now`.
pub fn map_user(
    id: i64,
    email: String,
    timezone: String,
    default_filter: String,
    default_sort_order: String,
    default_feed_id: Option<i64>,
    now: i64,
) -> (u: User)
    ensures
        u == (User {
            id,
            email,
            timezone,
            default_filter,
            default_sort_order,
            default_feed_id,
            created_at: now,
            updated_at: now,
        }),
{
    User {
        id,
        email,
        timezone,
        default_filter,
        default_sort_order,
        default_feed_id,
        created_at: now,
        updated_at: now,
    }
}

/// A freshly created user: UTC, `unread` by default, oldest first, no
/// default feed.
pub fn new_user_record(id: i64, email: String, now: i64) -> (u: User)
    ensures
        u.id == id,
        u.email == email,
        u.timezone@ == "UTC"@,
        u.default_filter@ == "unread"@,
        u.default_sort_order@ == "oldest_first"@,
        u.default_feed_id is None,
        u.created_at == now && u.updated_at == now,
{
    map_user(id, email, to_string("UTC"), to_string("unread"), to_string("oldest_first"), None, now)
}

} // verus!
