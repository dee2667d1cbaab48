//! Users, authentication messages and the password rule.

use vstd::prelude::*;
use vstd::string::StringSliceAdditionalSpecFns;
use vstd::utf8::encode_utf8;

use crate::errors::{finish_validation, validation_outcome, AppError, FieldError, FieldErrorV};
use crate::ext::checks::{char_is_alphanumeric, unicode_alphanumeric, validate_email, email_accepted};
use crate::text::{
    char_is_ascii_digit, char_is_ascii_lowercase, char_is_ascii_uppercase, chars_of, is_digit_ascii,
    is_lower_ascii, is_upper_ascii, str_eq,
};

verus! {

/// A user's profile and preferences.
#[derive(Debug, Clone, PartialEq)]
pub struct User {
    pub id: i64,
    pub email: String,
    pub timezone: String,
    /// `all`, `unread`, `read` or `starred`.
    pub default_filter: String,
    /// `oldest_first` or `newest_first`.
    pub default_sort_order: String,
    pub default_feed_id: Option<i64>,
    pub created_at: i64,
    pub updated_at: i64,
}

/// The request that creates a user.
#[derive(Debug, Clone, PartialEq)]
pub struct CreateUserRequest {
    pub email: String,
    pub password: String,
    pub password_confirmation: String,
}

#[derive(Debug, Clone, PartialEq)]
pub struct LoginRequest {
    pub email: String,
    pub password: String,
}

/// Changes to a user's profile; `None` keeps a field. A new password needs
/// the current one.
#[derive(Debug, Clone, PartialEq, Default)]
pub struct UserUpdate {
    pub email: Option<String>,
    pub timezone: Option<String>,
    pub default_filter: Option<String>,
    pub default_sort_order: Option<String>,
    pub current_password: Option<String>,
    pub new_password: Option<String>,
}

#[derive(Debug, Clone, PartialEq)]
pub struct PasswordChange {
    pub current_password: String,
    pub new_password: String,
}

/// The tokens a login hands out.
#[derive(Debug, Clone, PartialEq)]
pub struct LoginResponse {
    pub access_token: String,
    pub refresh_token: String,
    pub token_type: String,
    pub expires_in: i64,
}

#[derive(Debug, Clone, PartialEq)]
pub struct RefreshRequest {
    pub refresh_token: String,
}

#[derive(Debug, Clone, PartialEq)]
pub struct RefreshResponse {
    pub access_token: String,
    pub token_type: String,
    pub expires_in: i64,
}

pub open spec fn has_upper(p: Seq<char>) -> bool {
    exists|i: int| 0 <= i < p.len() && is_upper_ascii(#[trigger] p[i])
}

pub open spec fn has_lower(p: Seq<char>) -> bool {
    exists|i: int| 0 <= i < p.len() && is_lower_ascii(#[trigger] p[i])
}

pub open spec fn has_digit(p: Seq<char>) -> bool {
    exists|i: int| 0 <= i < p.len() && is_digit_ascii(#[trigger] p[i])
}

/// A character that is neither a letter nor a digit in Unicode's sense.
pub open spec fn has_special(p: Seq<char>) -> bool {
    exists|i: int| 0 <= i < p.len() && !unicode_alphanumeric(#[trigger] p[i])
}

/// The password rule: at least 8 bytes of UTF-8, with an ASCII uppercase
/// letter, an ASCII lowercase letter, an ASCII digit and a character that
/// is not alphanumeric. `None` where the password passes, else the rule's
/// error code.
pub open spec fn password_problem(p: Seq<char>) -> Option<Seq<char>> {
    if encode_utf8(p).len() < 8 {
        Some("password too short"@)
    } else if has_upper(p) && has_lower(p) && has_digit(p) && has_special(p) {
        None
    } else {
        Some("password must contain uppercase, lowercase, digit, and special character"@)
    }
}

/// Checks the password rule; the error is the rule's code.
pub fn validate_password_complexity(password: &str) -> (r: Result<(), String>)
    ensures
        match r {
            Ok(()) => password_problem(password@) is None,
            Err(code) => password_problem(password@) == Some(code@),
        },
{
    let n = password.as_bytes().len();
    assert(password.spec_bytes() == encode_utf8(password@));
    if n < 8 {
        return Err("password too short".to_owned());
    }
    let v = chars_of(password);
    let mut upper = false;
    let mut lower = false;
    let mut digit = false;
    let mut special = false;
    let mut i: usize = 0;
    while i < v.len()
        invariant
            v@ == password@,
            i <= v@.len(),
            upper == exists|j: int| 0 <= j < i && is_upper_ascii(#[trigger] v@[j]),
            lower == exists|j: int| 0 <= j < i && is_lower_ascii(#[trigger] v@[j]),
            digit == exists|j: int| 0 <= j < i && is_digit_ascii(#[trigger] v@[j]),
            special == exists|j: int| 0 <= j < i && !unicode_alphanumeric(#[trigger] v@[j]),
        decreases v@.len() - i,
    {
        let c = v[i];
        upper = upper || char_is_ascii_uppercase(c);
        lower = lower || char_is_ascii_lowercase(c);
        digit = digit || char_is_ascii_digit(c);
        special = special || !char_is_alphanumeric(c);
        i = i + 1;
    }
    if upper && lower && digit && special {
        Ok(())
    } else {
        Err("password must contain uppercase, lowercase, digit, and special character".to_owned())
    }
}

/// The failures of the e-mail rule on field `field`.
pub open spec fn email_errors(email: Seq<char>) -> Seq<FieldErrorV> {
    if email_accepted(email) {
        Seq::empty()
    } else {
        seq![("email"@, "email"@, Some("invalid email"@))]
    }
}

/// The failures of the new-password rule (the rule's code, no message).
pub open spec fn new_password_errors(p: Seq<char>) -> Seq<FieldErrorV> {
    match password_problem(p) {
        Some(code) => seq![("new_password"@, code, None::<Seq<char>>)],
        None => Seq::empty(),
    }
}

/// The failures of the password rule on a chosen password: fewer than 8
/// characters, else the complexity rule's code (see `password_problem`).
pub open spec fn password_errors(password: Seq<char>) -> Seq<FieldErrorV> {
    if password.len() < 8 {
        seq![("password"@, "length"@, Some("password must be at least 8 characters"@))]
    } else {
        match password_problem(password) {
            Some(code) => seq![("password"@, code, None::<Seq<char>>)],
            None => Seq::empty(),
        }
    }
}

/// The failures a `CreateUserRequest` can have, in field order.
pub open spec fn create_user_errors(email: Seq<char>, password: Seq<char>, confirmation: Seq<char>) -> Seq<
    FieldErrorV,
> {
    email_errors(email) + password_errors(password) + (if confirmation != password {
        seq![("password_confirmation"@, "must_match"@, Some("passwords do not match"@))]
    } else {
        Seq::empty()
    })
}

pub(crate) fn push_email_rule(errors: &mut Vec<FieldError>, email: &str)
    ensures
        final(errors)@.map_values(|e: FieldError| e@) == old(errors)@.map_values(
            |e: FieldError| e@,
        ) + email_errors(email@),
{
    let ghost before = errors@.map_values(|e: FieldError| e@);
    if !validate_email(email) {
        errors.push(FieldError::new("email", "email", Some("invalid email")));
    }
    assert(errors@.map_values(|e: FieldError| e@) =~= before + email_errors(email@));
}

pub(crate) fn push_password_rule(errors: &mut Vec<FieldError>, password: &str)
    ensures
        final(errors)@.map_values(|e: FieldError| e@) == old(errors)@.map_values(
            |e: FieldError| e@,
        ) + password_errors(password@),
{
    let ghost before = errors@.map_values(|e: FieldError| e@);
    let pv = chars_of(password);
    if pv.len() < 8 {
        errors.push(
            FieldError::new("password", "length", Some("password must be at least 8 characters")),
        );
    } else {
        match validate_password_complexity(password) {
            Ok(()) => {},
            Err(code) => {
                errors.push(FieldError { field: "password".to_owned(), code, message: None });
            },
        }
    }
    assert(errors@.map_values(|e: FieldError| e@) =~= before + password_errors(password@));
}

fn push_new_password_rule(errors: &mut Vec<FieldError>, password: &str)
    ensures
        final(errors)@.map_values(|e: FieldError| e@) == old(errors)@.map_values(
            |e: FieldError| e@,
        ) + new_password_errors(password@),
{
    let ghost before = errors@.map_values(|e: FieldError| e@);
    match validate_password_complexity(password) {
        Ok(()) => {},
        Err(code) => {
            errors.push(FieldError { field: "new_password".to_owned(), code, message: None });
        },
    }
    assert(errors@.map_values(|e: FieldError| e@) =~= before + new_password_errors(password@));
}

impl CreateUserRequest {
    /// Validates the request: a valid e-mail, a password of at least 8
    /// characters that passes the password rule, and a confirmation equal
    /// to the password.
    pub fn validate(&self) -> (r: Result<(), AppError>)
        ensures
            validation_outcome(
                r,
                create_user_errors(self.email@, self.password@, self.password_confirmation@),
            ),
    {
        let mut errors: Vec<FieldError> = Vec::new();
        push_email_rule(&mut errors, self.email.as_str());
        push_password_rule(&mut errors, self.password.as_str());
        let ghost after_password = errors@.map_values(|e: FieldError| e@);
        if !str_eq(self.password_confirmation.as_str(), self.password.as_str()) {
            errors.push(
                FieldError::new(
                    "password_confirmation",
                    "must_match",
                    Some("passwords do not match"),
                ),
            );
        }
        proof {
            assert(errors@.map_values(|e: FieldError| e@) =~= create_user_errors(
                self.email@,
                self.password@,
                self.password_confirmation@,
            ));
        }
        finish_validation(errors)
    }
}

impl LoginRequest {
    /// Validates the request: the e-mail must be valid.
    pub fn validate(&self) -> (r: Result<(), AppError>)
        ensures
            validation_outcome(r, email_errors(self.email@)),
    {
        let mut errors: Vec<FieldError> = Vec::new();
        push_email_rule(&mut errors, self.email.as_str());
        assert(errors@.map_values(|e: FieldError| e@) =~= email_errors(self.email@));
        finish_validation(errors)
    }
}

/// The failures a `UserUpdate` can have: a present e-mail must be valid and
/// a present new password must pass the password rule.
pub open spec fn user_update_errors(email: Option<String>, new_password: Option<String>) -> Seq<
    FieldErrorV,
> {
    (match email {
        Some(e) => email_errors(e@),
        None => Seq::empty(),
    }) + (match new_password {
        Some(p) => new_password_errors(p@),
        None => Seq::empty(),
    })
}

impl UserUpdate {
    pub fn validate(&self) -> (r: Result<(), AppError>)
        ensures
            validation_outcome(r, user_update_errors(self.email, self.new_password)),
    {
        let mut errors: Vec<FieldError> = Vec::new();
        match &self.email {
            Some(e) => push_email_rule(&mut errors, e.as_str()),
            None => {},
        }
        match &self.new_password {
            Some(p) => push_new_password_rule(&mut errors, p.as_str()),
            None => {},
        }
        assert(errors@.map_values(|e: FieldError| e@) =~= user_update_errors(
            self.email,
            self.new_password,
        ));
        finish_validation(errors)
    }
}

impl PasswordChange {
    pub fn validate(&self) -> (r: Result<(), AppError>)
        ensures
            validation_outcome(r, new_password_errors(self.new_password@)),
    {
        let mut errors: Vec<FieldError> = Vec::new();
        push_new_password_rule(&mut errors, self.new_password.as_str());
        assert(errors@.map_values(|e: FieldError| e@) =~= new_password_errors(self.new_password@));
        finish_validation(errors)
    }
}

} // verus!
