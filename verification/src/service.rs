//! A service: an identifier plus the credentials used to authenticate.

use vstd::prelude::*;
use crate::credentials::Credentials;
use crate::errors::ValidationError;
use crate::params::{
    Mangling, ParamSeq, ToParams, lemma_mangled_append, lemma_mangled_singleton, mangled_params,
    push_param,
};

verus! {

/// A backend service, identified by a service id and authenticated with one
/// `Credentials` value. Immutable once constructed.
#[derive(Clone, Debug)]
pub struct Service {
    pub service_id: String,
    pub creds: Credentials,
}

impl Service {
    /// Creates a new `Service` from a service id and `Credentials`.
    ///
    /// An empty service id is malformed caller input and is rejected here,
    /// at construction, with a typed validation error.
    pub fn new(service_id: String, creds: Credentials) -> (r: Result<Service, ValidationError>)
        ensures
            service_id@.len() == 0 <==> r matches Err(ValidationError::EmptyServiceId),
            service_id@.len() > 0 ==> (r matches Ok(s) && s.service_id@ == service_id@ && s.creds
                == creds),
    {
        if service_id.as_str().is_empty() {
            Err(ValidationError::EmptyServiceId)
        } else {
            Ok(Service { service_id, creds })
        }
    }
}

impl ToParams for Service {
    open spec fn spec_params(&self) -> ParamSeq {
        seq![("service_id"@, self.service_id@)] + self.creds.spec_params()
    }

    fn to_params_with_mangling(&self, target: &mut Vec<(String, String)>, mangling: &Mangling) {
        push_param(target, mangling.apply("service_id"), self.service_id.clone());
        self.creds.to_params_with_mangling(target, mangling);
        proof {
            lemma_mangled_singleton(*mangling, "service_id"@, self.service_id@);
            lemma_mangled_append(
                *mangling,
                seq![("service_id"@, self.service_id@)],
                self.creds.spec_params(),
            );
            assert(target.deep_view() =~= old(target).deep_view() + mangled_params(
                *mangling,
                self.spec_params(),
            ));
        }
    }
}

} // verus!
