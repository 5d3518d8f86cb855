//! How an end user is identified on a call: a plain user id or an OAuth
//! access token.

use vstd::prelude::*;
use crate::errors::ParseError;
use crate::params::{
    Mangling, ParamSeq, ToParams, lemma_mangled_singleton, push_param,
};

verus! {

/// A plain user identifier.
#[derive(Clone, Debug)]
pub struct UserId(pub String);

/// An OAuth-issued access token.
#[derive(Clone, Debug)]
pub struct OAuthToken(pub String);

impl UserId {
    /// The identifier as a string slice.
    pub fn as_str(&self) -> (s: &str)
        ensures
            s@ == self.0@,
    {
        self.0.as_str()
    }
}

impl OAuthToken {
    /// The token as a string slice.
    pub fn as_str(&self) -> (s: &str)
        ensures
            s@ == self.0@,
    {
        self.0.as_str()
    }
}

impl core::str::FromStr for UserId {
    type Err = ParseError;

    fn from_str(s: &str) -> Result<UserId, ParseError> {
        Ok(UserId(s.to_owned()))
    }
}

impl core::str::FromStr for OAuthToken {
    type Err = ParseError;

    fn from_str(s: &str) -> Result<OAuthToken, ParseError> {
        Ok(OAuthToken(s.to_owned()))
    }
}

impl From<String> for UserId {
    fn from(s: String) -> (r: UserId) {
        UserId(s)
    }
}

impl vstd::std_specs::convert::FromSpecImpl<String> for UserId {
    open spec fn obeys_from_spec() -> bool {
        true
    }

    open spec fn from_spec(s: String) -> UserId {
        UserId(s)
    }
}

impl<'a> From<&'a str> for UserId {
    fn from(s: &'a str) -> (r: UserId)
        ensures
            r.0@ == s@,
    {
        UserId(s.to_owned())
    }
}

// The value `UserId::from` returns for a `&str` holds a fresh `String`,
// which no spec expression denotes, so `from_spec` cannot be given
// truthfully and claims nothing; the `ensures` above carries the contract.
impl<'a> vstd::std_specs::convert::FromSpecImpl<&'a str> for UserId {
    open spec fn obeys_from_spec() -> bool {
        false
    }

    open spec fn from_spec(s: &'a str) -> UserId {
        vstd::pervasive::arbitrary()
    }
}

impl<'a> From<&'a str> for OAuthToken {
    fn from(s: &'a str) -> (r: OAuthToken)
        ensures
            r.0@ == s@,
    {
        OAuthToken(s.to_owned())
    }
}

// As for `UserId`: nothing can be claimed of the fresh `String` inside.
impl<'a> vstd::std_specs::convert::FromSpecImpl<&'a str> for OAuthToken {
    open spec fn obeys_from_spec() -> bool {
        false
    }

    open spec fn from_spec(s: &'a str) -> OAuthToken {
        vstd::pervasive::arbitrary()
    }
}

impl From<String> for OAuthToken {
    fn from(s: String) -> (r: OAuthToken) {
        OAuthToken(s)
    }
}

impl vstd::std_specs::convert::FromSpecImpl<String> for OAuthToken {
    open spec fn obeys_from_spec() -> bool {
        true
    }

    open spec fn from_spec(s: String) -> OAuthToken {
        OAuthToken(s)
    }
}

/// An end user: exactly one way of being identified is active.
#[derive(Clone, Debug)]
pub enum User {
    UserId(UserId),
    OAuthToken(OAuthToken),
}

impl User {
    /// Creates a `User` from a user id.
    pub fn from_user_id(user_id: String) -> (u: User)
        ensures
            u matches User::UserId(i) && i.0@ == user_id@,
    {
        User::UserId(UserId(user_id))
    }

    /// Creates a `User` from an OAuth token.
    pub fn from_oauth_token(token: String) -> (u: User)
        ensures
            u matches User::OAuthToken(t) && t.0@ == token@,
    {
        User::OAuthToken(OAuthToken(token))
    }
}

impl From<UserId> for User {
    fn from(user_id: UserId) -> (u: User) {
        User::UserId(user_id)
    }
}

impl vstd::std_specs::convert::FromSpecImpl<UserId> for User {
    open spec fn obeys_from_spec() -> bool {
        true
    }

    open spec fn from_spec(user_id: UserId) -> User {
        User::UserId(user_id)
    }
}

impl From<OAuthToken> for User {
    fn from(token: OAuthToken) -> (u: User) {
        User::OAuthToken(token)
    }
}

impl vstd::std_specs::convert::FromSpecImpl<OAuthToken> for User {
    open spec fn obeys_from_spec() -> bool {
        true
    }

    open spec fn from_spec(token: OAuthToken) -> User {
        User::OAuthToken(token)
    }
}

impl ToParams for User {
    open spec fn spec_params(&self) -> ParamSeq {
        match self {
            User::UserId(id) => seq![("user_id"@, id.0@)],
            User::OAuthToken(t) => seq![("access_token"@, t.0@)],
        }
    }

    fn to_params_with_mangling(&self, target: &mut Vec<(String, String)>, mangling: &Mangling) {
        match self {
            User::UserId(id) => {
                push_param(target, mangling.apply("user_id"), id.0.clone());
                proof {
                    lemma_mangled_singleton(*mangling, "user_id"@, id.0@);
                }
            },
            User::OAuthToken(t) => {
                push_param(target, mangling.apply("access_token"), t.0.clone());
                proof {
                    lemma_mangled_singleton(*mangling, "access_token"@, t.0@);
                }
            },
        }
    }
}

/// Serializing a user yields exactly one pair, keyed `user_id` for a plain
/// id and `access_token` for an OAuth token — never both, never zero.
pub proof fn lemma_user_exactly_one(u: User)
    ensures
        u.spec_params().len() == 1,
        (u is UserId) <==> u.spec_params()[0].0 == "user_id"@,
        (u is OAuthToken) <==> u.spec_params()[0].0 == "access_token"@,
{
    reveal_strlit("user_id");
    reveal_strlit("access_token");
    assert("user_id"@.len() != "access_token"@.len());
}

} // verus!
