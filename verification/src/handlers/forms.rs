//! The forms of the web pages and what their submissions come to.

use vstd::prelude::*;

use crate::errors::{finish_validation, validation_outcome, AppError, DbFailure, FieldError, FieldErrorV};
use crate::ext::checks::validate_url;
use crate::ext::url_ops::url_parse_result;
use crate::models::feed::ImportResult;
use crate::models::user::{
    email_errors, password_errors, push_email_rule, push_password_rule, CreateUserRequest,
};
use crate::text::{chars_of, dec, or_text, push_decimal, push_str, str_eq, to_string};

verus! {

// ---------------------------------------------------------------------------
// First-run setup
// ---------------------------------------------------------------------------

/// The form that creates the first user.
#[derive(Debug, Clone, PartialEq)]
pub struct SetupForm {
    pub email: String,
    pub password: String,
    pub password_confirmation: String,
}

/// The failures a setup form can have: the e-mail rule, then the password
/// rule (at least 8 characters, and the complexity rule).
pub open spec fn setup_form_errors(email: Seq<char>, password: Seq<char>) -> Seq<FieldErrorV> {
    email_errors(email) + password_errors(password)
}

impl SetupForm {
    /// Validates the form (see `setup_form_errors`).
    pub fn validate(&self) -> (r: Result<(), AppError>)
        ensures
            validation_outcome(r, setup_form_errors(self.email@, self.password@)),
    {
        let mut errors: Vec<FieldError> = Vec::new();
        push_email_rule(&mut errors, self.email.as_str());
        push_password_rule(&mut errors, self.password.as_str());
        assert(errors@.map_values(|e: FieldError| e@) =~= setup_form_errors(
            self.email@,
            self.password@,
        ));
        finish_validation(errors)
    }
}

/// What a setup submission comes to.
#[derive(Debug)]
pub enum SetupAnswer {
    /// Redirect to this path.
    Redirect(String),
    /// Show the form again, answered with `400`, with the e-mail entered and
    /// this message.
    FormError { email: String, message: String },
    /// Create the first user from this request.
    Create(CreateUserRequest),
}

/// `r` redirects to `path`.
pub open spec fn redirects_to(r: Result<SetupAnswer, AppError>, path: Seq<char>) -> bool {
    r matches Ok(SetupAnswer::Redirect(p)) && p@ == path
}

/// `r` shows the form again with `email` and `message`.
pub open spec fn form_error(r: Result<SetupAnswer, AppError>, email: Seq<char>, message: Seq<char>) -> bool {
    r matches Ok(SetupAnswer::FormError { email: e, message: m }) && e@ == email && m@ == message
}

/// A setup submission asks for a user to be created: no user exists yet,
/// the form is valid and the passwords match.
pub open spec fn setup_creates(user_count: int, form: SetupForm) -> bool {
    user_count <= 0 && setup_form_errors(form.email@, form.password@).len() == 0 && form.password@
        == form.password_confirmation@
}

/// The number of users after a run of setup submissions that starts with
/// `user_count` users, each creation adding one.
pub open spec fn users_after_setup(user_count: int, forms: Seq<SetupForm>) -> int
    decreases forms.len(),
{
    if forms.len() == 0 {
        user_count
    } else {
        let n = users_after_setup(user_count, forms.drop_last());
        if setup_creates(n, forms.last()) {
            n + 1
        } else {
            n
        }
    }
}

/// Setup creates one user at most: however many submissions follow, from
/// no users the count ends at 0 or 1, and once a user exists no submission
/// creates another.
pub proof fn lemma_setup_creates_one_user(user_count: int, forms: Seq<SetupForm>)
    requires
        user_count >= 0,
    ensures
        user_count == 0 ==> 0 <= users_after_setup(user_count, forms) <= 1,
        user_count > 0 ==> users_after_setup(user_count, forms) == user_count,
    decreases forms.len(),
{
    if forms.len() > 0 {
        lemma_setup_creates_one_user(user_count, forms.drop_last());
    }
}

/// Decides a setup submission when `user_count` users exist: once a user
/// exists setup is over and the answer is a redirect home; an invalid form
/// is a validation error; different passwords show the form again;
/// otherwise the user is to be created.
pub fn setup_submit_step(user_count: i64, form: SetupForm) -> (r: Result<SetupAnswer, AppError>)
    ensures
        user_count > 0 ==> redirects_to(r, "/"@),
        user_count <= 0 && setup_form_errors(form.email@, form.password@).len() > 0 ==> (r matches Err(
            e,
        ) && validation_outcome(Err(e), setup_form_errors(form.email@, form.password@))),
        user_count <= 0 && setup_form_errors(form.email@, form.password@).len() == 0
            && form.password@ != form.password_confirmation@ ==> form_error(
            r,
            form.email@,
            "passwords do not match"@,
        ),
        user_count <= 0 && setup_form_errors(form.email@, form.password@).len() == 0
            && form.password@ == form.password_confirmation@ ==> (r matches Ok(SetupAnswer::Create(req))
            && req.email@ == form.email@ && req.password@ == form.password@
            && req.password_confirmation@ == form.password_confirmation@),
        (r matches Ok(SetupAnswer::Create(_))) == setup_creates(user_count as int, form),
{
    if user_count > 0 {
        return Ok(SetupAnswer::Redirect(to_string("/")));
    }
    match form.validate() {
        Err(e) => {
            return Err(e);
        },
        Ok(()) => {},
    }
    if !str_eq(form.password.as_str(), form.password_confirmation.as_str()) {
        return Ok(
            SetupAnswer::FormError { email: form.email, message: to_string("passwords do not match") },
        );
    }
    Ok(
        SetupAnswer::Create(
            CreateUserRequest {
                email: form.email,
                password: form.password,
                password_confirmation: form.password_confirmation,
            },
        ),
    )
}

/// What creating the first user comes to: a redirect to the login page, the
/// form again where the e-mail is taken, else the error.
pub fn setup_created(created: Result<(), AppError>, email: &str) -> (r: Result<SetupAnswer, AppError>)
    ensures
        match created {
            Ok(()) => redirects_to(r, "/login"@),
            Err(AppError::Database(DbFailure::UniqueViolation)) => form_error(
                r,
                email@,
                "email already exists"@,
            ),
            Err(e) => r == Err::<SetupAnswer, AppError>(e),
        },
{
    match created {
        Ok(()) => Ok(SetupAnswer::Redirect(to_string("/login"))),
        Err(AppError::Database(DbFailure::UniqueViolation)) => Ok(
            SetupAnswer::FormError { email: to_string(email), message: to_string("email already exists") },
        ),
        Err(e) => Err(e),
    }
}

// ---------------------------------------------------------------------------
// Feed forms
// ---------------------------------------------------------------------------

/// The form that subscribes to a feed.
#[derive(Debug, Clone, PartialEq)]
pub struct AddFeedForm {
    pub url: String,
}

/// The form that looks for the feeds of a web site.
#[derive(Debug, Clone, PartialEq)]
pub struct DiscoverForm {
    pub url: String,
}

/// The failures of a form's URL rule: the URL must parse.
pub open spec fn form_url_errors(url: Seq<char>) -> Seq<FieldErrorV> {
    if url_parse_result(url) is Ok {
        Seq::empty()
    } else {
        seq![("url"@, "url"@, Some("invalid URL"@))]
    }
}

fn validate_form_url(url: &str) -> (r: Result<(), AppError>)
    ensures
        validation_outcome(r, form_url_errors(url@)),
{
    let mut errors: Vec<FieldError> = Vec::new();
    if !validate_url(url) {
        errors.push(FieldError::new("url", "url", Some("invalid URL")));
    }
    assert(errors@.map_values(|e: FieldError| e@) =~= form_url_errors(url@));
    finish_validation(errors)
}

impl AddFeedForm {
    /// Validates the form: the URL must parse.
    pub fn validate(&self) -> (r: Result<(), AppError>)
        ensures
            validation_outcome(r, form_url_errors(self.url@)),
    {
        validate_form_url(self.url.as_str())
    }
}

impl DiscoverForm {
    /// Validates the form: the URL must parse.
    pub fn validate(&self) -> (r: Result<(), AppError>)
        ensures
            validation_outcome(r, form_url_errors(self.url@)),
    {
        validate_form_url(self.url.as_str())
    }
}

/// What a failed rule shows: its message, else its code.
pub open spec fn shown(e: FieldErrorV) -> Seq<char> {
    match e.2 {
        Some(m) => m,
        None => e.1,
    }
}

/// The failures shown one after another, separated by `; `.
pub open spec fn joined_messages(errs: Seq<FieldErrorV>) -> Seq<char>
    decreases errs.len(),
{
    if errs.len() == 0 {
        Seq::empty()
    } else if errs.len() == 1 {
        shown(errs[0])
    } else {
        joined_messages(errs.drop_last()) + "; "@ + shown(errs.last())
    }
}

/// The message a page shows for failed validation rules (see
/// `joined_messages`).
pub fn validation_message(errors: &Vec<FieldError>) -> (r: String)
    ensures
        r@ == joined_messages(errors@.map_values(|e: FieldError| e@)),
{
    let ghost es = errors@.map_values(|e: FieldError| e@);
    let mut out = String::new();
    let mut i: usize = 0;
    while i < errors.len()
        invariant
            es == errors@.map_values(|e: FieldError| e@),
            i <= errors@.len(),
            out@ == joined_messages(es.take(i as int)),
        decreases errors@.len() - i,
    {
        proof {
            assert(es.take(i + 1).drop_last() =~= es.take(i as int));
            assert(es.take(i + 1).last() == errors@[i as int]@);
        }
        if i > 0 {
            push_str(&mut out, "; ");
        } else {
            assert(es.take(1) =~= seq![es[0]]);
        }
        let e = &errors[i];
        match &e.message {
            Some(m) => push_str(&mut out, m.as_str()),
            None => push_str(&mut out, e.code.as_str()),
        }
        i = i + 1;
    }
    assert(es.take(i as int) =~= es);
    out
}

/// The message shown after an OPML import.
pub open spec fn import_message_of(imported: nat, total: nat, failed: nat) -> Seq<char> {
    "Imported "@ + dec(imported) + " of "@ + dec(total) + " feeds ("@ + dec(failed) + " failed)."@
}

/// The message shown after an OPML import: how many of the outlines were
/// imported and how many failed.
pub fn import_message(result: &ImportResult) -> (r: String)
    ensures
        r@ == import_message_of(result.imported as nat, result.total as nat, result.failed as nat),
{
    let mut out = to_string("Imported ");
    push_decimal(&mut out, result.imported as u64);
    push_str(&mut out, " of ");
    push_decimal(&mut out, result.total as u64);
    push_str(&mut out, " feeds (");
    push_decimal(&mut out, result.failed as u64);
    push_str(&mut out, " failed).");
    assert(out@ =~= import_message_of(result.imported as nat, result.total as nat, result.failed as nat));
    out
}

} // verus!
