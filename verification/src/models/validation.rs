//! Field rules shared by the models: length bounds, email syntax, URL syntax.
//!
//! Lengths are counted in characters. Email and URL syntax are decided by the
//! `validator` crate; the verifier knows them only by name.

use validator::{ValidateEmail, ValidateLength, ValidateUrl};
use vstd::prelude::*;

verus! {

/// A field that failed its rule.
#[derive(Clone, Copy, Debug, PartialEq, Eq, Structural)]
pub enum InvalidField {
    /// The identifier is not 1 to 40 characters long.
    Id,
    /// The name is not 1 to 80 characters long.
    Name,
    /// The email address is not valid email syntax.
    Email,
    /// The avatar URL is present and not valid URL syntax.
    AvatarUrl,
}

/// Shortest and longest identifier, in characters.
pub const ID_MIN: u64 = 1;

pub const ID_MAX: u64 = 40;

/// Shortest and longest name, in characters.
pub const NAME_MIN: u64 = 1;

pub const NAME_MAX: u64 = 80;

/// The text has between `min` and `max` characters, both included.
pub open spec fn length_between(text: Seq<char>, min: nat, max: nat) -> bool {
    min <= text.len() <= max
}

/// Whether `validator` accepts the text as an email address.
pub uninterp spec fn email_syntax(text: Seq<char>) -> bool;

/// Whether `validator` accepts the text as a URL.
pub uninterp spec fn url_syntax(text: Seq<char>) -> bool;

/// An absent avatar URL is valid; a present one must be a URL.
pub open spec fn avatar_ok(avatar: Option<Seq<char>>) -> bool {
    match avatar {
        Some(url) => url_syntax(url),
        None => true,
    }
}

/// The failed fields, in the order identifier, name, email, avatar URL,
/// given which rules hold.
pub open spec fn failed_fields(id_ok: bool, name_ok: bool, email_ok: bool, avatar_ok: bool) -> Seq<
    InvalidField,
> {
    let id = if id_ok {
        Seq::<InvalidField>::empty()
    } else {
        seq![InvalidField::Id]
    };
    let name = if name_ok {
        Seq::<InvalidField>::empty()
    } else {
        seq![InvalidField::Name]
    };
    let email = if email_ok {
        Seq::<InvalidField>::empty()
    } else {
        seq![InvalidField::Email]
    };
    let avatar = if avatar_ok {
        Seq::<InvalidField>::empty()
    } else {
        seq![InvalidField::AvatarUrl]
    };
    id + name + email + avatar
}

/// The fields of a customer or profile that break their rules.
pub open spec fn invalid_fields(
    id: Seq<char>,
    name: Seq<char>,
    email: Seq<char>,
    avatar: Option<Seq<char>>,
) -> Seq<InvalidField> {
    failed_fields(
        length_between(id, ID_MIN as nat, ID_MAX as nat),
        length_between(name, NAME_MIN as nat, NAME_MAX as nat),
        email_syntax(email),
        avatar_ok(avatar),
    )
}

/// Trusted: calls `validator::ValidateLength::validate_length` on the text
/// with both bounds and no exact length. That method counts the characters
/// of a `String` and accepts the count when it is neither below `min` nor
/// above `max`.
#[verifier::external_body]
fn has_length_between(text: &String, min: u64, max: u64) -> (ok: bool)
    ensures
        ok == length_between(text@, min as nat, max as nat),
{
    text.validate_length(Some(min), Some(max), None)
}

/// Trusted: calls `validator::ValidateEmail::validate_email`, whose answer
/// depends on the text alone and is named `email_syntax`.
#[verifier::external_body]
fn is_email(text: &String) -> (ok: bool)
    ensures
        ok == email_syntax(text@),
{
    text.validate_email()
}

/// Trusted: calls `validator::ValidateUrl::validate_url`, whose answer
/// depends on the text alone and is named `url_syntax`.
#[verifier::external_body]
fn is_url(text: &String) -> (ok: bool)
    ensures
        ok == url_syntax(text@),
{
    text.validate_url()
}

/// Turns the outcome of the four rules into a validation result: success
/// when all hold, otherwise the failed fields in order.
pub fn collect_failures(id_ok: bool, name_ok: bool, email_ok: bool, avatar_ok: bool) -> (result:
    Result<(), Vec<InvalidField>>)
    ensures
        match result {
            Ok(_) => id_ok && name_ok && email_ok && avatar_ok,
            Err(fields) => fields@ == failed_fields(id_ok, name_ok, email_ok, avatar_ok)
                && fields@.len() > 0,
        },
{
    let mut fields: Vec<InvalidField> = Vec::new();
    if !id_ok {
        fields.push(InvalidField::Id);
    }
    if !name_ok {
        fields.push(InvalidField::Name);
    }
    if !email_ok {
        fields.push(InvalidField::Email);
    }
    if !avatar_ok {
        fields.push(InvalidField::AvatarUrl);
    }
    assert(fields@ =~= failed_fields(id_ok, name_ok, email_ok, avatar_ok));
    if fields.len() == 0 {
        Ok(())
    } else {
        Err(fields)
    }
}

/// Checks the four validated fields of a customer or profile.
pub fn validate_fields(id: &String, name: &String, email: &String, avatar: &Option<String>) -> (result:
    Result<(), Vec<InvalidField>>)
    ensures
        match result {
            Ok(_) => invalid_fields(id@, name@, email@, option_text(*avatar)).len() == 0,
            Err(fields) => fields@ == invalid_fields(id@, name@, email@, option_text(*avatar))
                && fields@.len() > 0,
        },
{
    let id_ok = has_length_between(id, ID_MIN, ID_MAX);
    let name_ok = has_length_between(name, NAME_MIN, NAME_MAX);
    let email_ok = is_email(email);
    let avatar_ok = match avatar {
        Some(url) => is_url(url),
        None => true,
    };
    collect_failures(id_ok, name_ok, email_ok, avatar_ok)
}

/// A copy of an optional text.
pub fn clone_text(text: &Option<String>) -> (copy: Option<String>)
    ensures
        option_text(copy) == option_text(*text),
{
    match text {
        Some(t) => Some(t.clone()),
        None => None,
    }
}

/// The characters of an optional text.
pub open spec fn option_text(text: Option<String>) -> Option<Seq<char>> {
    match text {
        Some(t) => Some(t@),
        None => None,
    }
}

} // verus!
