//! The profile an identity provider reports for a customer, used as the
//! input of a profile refresh.

use crate::models::validation::{
    clone_text, invalid_fields, option_text, validate_fields, InvalidField,
};
use vstd::prelude::*;

verus! {

/// An externally sourced profile. It is validated like the matching fields
/// of a customer and never stored as it is.
#[derive(Debug, PartialEq, Eq)]
pub struct GithubProfile {
    /// Customer identifier, 1 to 40 characters.
    pub id: String,
    /// Email address.
    pub email: String,
    /// Display name, 1 to 80 characters.
    pub name: String,
    /// Avatar URL, if the provider gave one.
    pub avatar_url: Option<String>,
}

/// The mathematical value of a `GithubProfile`.
pub struct GithubProfileView {
    pub id: Seq<char>,
    pub email: Seq<char>,
    pub name: Seq<char>,
    pub avatar_url: Option<Seq<char>>,
}

impl GithubProfileView {
    /// The fields that break their rules, in the order identifier, name,
    /// email, avatar URL.
    pub open spec fn invalid_fields(self) -> Seq<InvalidField> {
        invalid_fields(self.id, self.name, self.email, self.avatar_url)
    }

    /// Every field keeps its rule.
    pub open spec fn valid(self) -> bool {
        self.invalid_fields().len() == 0
    }
}

impl View for GithubProfile {
    type V = GithubProfileView;

    open spec fn view(&self) -> GithubProfileView {
        GithubProfileView {
            id: self.id@,
            email: self.email@,
            name: self.name@,
            avatar_url: option_text(self.avatar_url),
        }
    }
}

impl Clone for GithubProfile {
    fn clone(&self) -> (copy: Self)
        ensures
            copy@ == self@,
    {
        GithubProfile {
            id: self.id.clone(),
            email: self.email.clone(),
            name: self.name.clone(),
            avatar_url: clone_text(&self.avatar_url),
        }
    }
}

impl GithubProfile {
    /// A profile with the given fields.
    pub fn new(id: String, email: String, name: String, avatar_url: Option<String>) -> (profile:
        Self)
        ensures
            profile.id == id,
            profile.email == email,
            profile.name == name,
            profile.avatar_url == avatar_url,
    {
        Self { id, email, name, avatar_url }
    }

    /// Checks every field against its rule and reports the ones that fail.
    pub fn validate(&self) -> (result: Result<(), Vec<InvalidField>>)
        ensures
            result is Ok <==> self@.valid(),
            result matches Err(fields) ==> fields@ == self@.invalid_fields(),
    {
        validate_fields(&self.id, &self.name, &self.email, &self.avatar_url)
    }
}

} // verus!
