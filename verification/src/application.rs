//! How the calling application identifies itself.

use vstd::prelude::*;
use crate::params::{
    Mangling, ParamSeq, ToParams, lemma_mangled_singleton, mangled_params, push_param,
};

verus! {

/// The calling application's identity: an app id with an optional app key,
/// or an OAuth-issued application token. The variant set is closed.
#[derive(Clone, Debug)]
pub enum Application {
    AppId(String, Option<String>),
    OAuthToken(String),
}

impl Application {
    /// Creates an application identity from an app id alone.
    pub fn from_app_id(app_id: String) -> (a: Application)
        ensures
            a matches Application::AppId(i, k) && i@ == app_id@ && k is None,
    {
        Application::AppId(app_id, None)
    }

    /// Creates an application identity from an app id and an app key.
    pub fn from_app_id_and_key(app_id: String, app_key: String) -> (a: Application)
        ensures
            a matches Application::AppId(i, k) && i@ == app_id@ && (k matches Some(key)
                && key@ == app_key@),
    {
        Application::AppId(app_id, Some(app_key))
    }

    /// Creates an application identity from an OAuth application token.
    pub fn from_oauth_token(token: String) -> (a: Application)
        ensures
            a matches Application::OAuthToken(t) && t@ == token@,
    {
        Application::OAuthToken(token)
    }

    /// Whether this application identifies itself by an OAuth token.
    pub open spec fn spec_is_oauth(&self) -> bool {
        self matches Application::OAuthToken(_)
    }

    /// Whether this application identifies itself by an OAuth token.
    pub fn is_oauth(&self) -> (b: bool)
        ensures
            b == self.spec_is_oauth(),
    {
        match self {
            Application::OAuthToken(_) => true,
            _ => false,
        }
    }
}

impl ToParams for Application {
    open spec fn spec_params(&self) -> ParamSeq {
        match self {
            Application::AppId(id, None) => seq![("app_id"@, id@)],
            Application::AppId(id, Some(key)) => seq![("app_id"@, id@), ("app_key"@, key@)],
            Application::OAuthToken(t) => seq![("access_token"@, t@)],
        }
    }

    fn to_params_with_mangling(&self, target: &mut Vec<(String, String)>, mangling: &Mangling) {
        match self {
            Application::AppId(id, key) => {
                push_param(target, mangling.apply("app_id"), id.clone());
                if let Some(k) = key {
                    push_param(target, mangling.apply("app_key"), k.clone());
                }
                proof {
                    assert(target.deep_view() =~= old(target).deep_view() + mangled_params(
                        *mangling,
                        self.spec_params(),
                    ));
                }
            },
            Application::OAuthToken(t) => {
                push_param(target, mangling.apply("access_token"), t.clone());
                proof {
                    lemma_mangled_singleton(*mangling, "access_token"@, t@);
                }
            },
        }
    }
}

} // verus!
