//! Input checks from `validator` and Unicode character data from std.

use vstd::prelude::*;

use crate::ext::url_ops::url_parse_result;
use crate::text::{is_digit_ascii, is_lower_ascii, is_upper_ascii, lower_seq};

verus! {

/// Whether `validator` accepts a string as an e-mail address (its HTML5
/// rule, with its length limits and IDN fallback).
pub uninterp spec fn email_accepted(s: Seq<char>) -> bool;

/// `validator::ValidateEmail::validate_email` on a string. The result is the
/// crate's verdict, named, not restated.
#[verifier::external_body]
pub(crate) fn validate_email(s: &str) -> (r: bool)
    ensures
        r == email_accepted(s@),
{
    ::validator::ValidateEmail::validate_email(&s)
}

/// `validator::ValidateUrl::validate_url` on a string. Its source is
/// `Url::parse(&u).is_ok()`, so the verdict is whether the `url` crate
/// parses the string.
#[verifier::external_body]
pub(crate) fn validate_url(s: &str) -> (r: bool)
    ensures
        r == (url_parse_result(s@) is Ok),
{
    ::validator::ValidateUrl::validate_url(&s)
}

/// Unicode `Alphabetic` or `Numeric`, what `char::is_alphanumeric` tests.
pub uninterp spec fn unicode_alphanumeric(c: char) -> bool;

/// `char::is_alphanumeric` from std. Its documentation defines it as
/// `is_alphabetic() || is_numeric()`; among ASCII characters that is
/// exactly the letters and the digits, which the contract states.
#[verifier::external_body]
pub(crate) fn char_is_alphanumeric(c: char) -> (r: bool)
    ensures
        r == unicode_alphanumeric(c),
        (c as u32) < 128 ==> (r == (is_upper_ascii(c) || is_lower_ascii(c) || is_digit_ascii(c))),
{
    c.is_alphanumeric()
}

/// The Unicode lower-case form of a string, what `str::to_lowercase` gives.
pub uninterp spec fn unicode_lowercase(s: Seq<char>) -> Seq<char>;

/// All characters of `s` are ASCII.
pub open spec fn all_ascii(s: Seq<char>) -> bool {
    forall|i: int| 0 <= i < s.len() ==> (#[trigger] s[i] as u32) < 128
}

/// `str::to_lowercase` from std. On ASCII input it lower-cases the ASCII
/// letters and keeps every other character, which the contract states; other
/// input is named.
#[verifier::external_body]
pub(crate) fn to_lowercase(s: &str) -> (r: String)
    ensures
        r@ == unicode_lowercase(s@),
        all_ascii(s@) ==> r@ == lower_seq(s@),
{
    s.to_lowercase()
}

} // verus!
