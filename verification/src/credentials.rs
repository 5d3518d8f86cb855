//! How a service authenticates against the backend.

use vstd::prelude::*;
use crate::params::{
    Mangling, ParamSeq, ToParams, lemma_mangled_singleton, push_param,
};

verus! {

/// Service credentials: exactly one of a provider key or a service token is
/// active, fixed at construction.
#[derive(Clone, Debug)]
pub enum Credentials {
    ProviderKey(String),
    ServiceToken(String),
}

impl Credentials {
    /// Creates credentials from a provider key.
    pub fn from_key(key: &str) -> (c: Credentials)
        ensures
            c matches Credentials::ProviderKey(k) && k@ == key@,
    {
        Credentials::ProviderKey(key.to_owned())
    }

    /// Creates credentials from a service token.
    pub fn from_token(token: &str) -> (c: Credentials)
        ensures
            c matches Credentials::ServiceToken(t) && t@ == token@,
    {
        Credentials::ServiceToken(token.to_owned())
    }
}

impl ToParams for Credentials {
    open spec fn spec_params(&self) -> ParamSeq {
        match self {
            Credentials::ProviderKey(k) => seq![("provider_key"@, k@)],
            Credentials::ServiceToken(t) => seq![("service_token"@, t@)],
        }
    }

    fn to_params_with_mangling(&self, target: &mut Vec<(String, String)>, mangling: &Mangling) {
        match self {
            Credentials::ProviderKey(k) => {
                push_param(target, mangling.apply("provider_key"), k.clone());
                proof {
                    lemma_mangled_singleton(*mangling, "provider_key"@, k@);
                }
            },
            Credentials::ServiceToken(t) => {
                push_param(target, mangling.apply("service_token"), t.clone());
                proof {
                    lemma_mangled_singleton(*mangling, "service_token"@, t@);
                }
            },
        }
    }
}

/// Serializing credentials yields exactly one pair, keyed `provider_key`
/// for a provider key and `service_token` for a service token — never both,
/// never zero.
pub proof fn lemma_credentials_exactly_one(c: Credentials)
    ensures
        c.spec_params().len() == 1,
        (c is ProviderKey) <==> c.spec_params()[0].0 == "provider_key"@,
        (c is ServiceToken) <==> c.spec_params()[0].0 == "service_token"@,
{
    reveal_strlit("provider_key");
    reveal_strlit("service_token");
    assert("provider_key"@.len() != "service_token"@.len());
}

} // verus!
