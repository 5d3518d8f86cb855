//! Endpoint resolution and method-aware packaging of the serialized
//! parameters.

pub mod request;

use vstd::prelude::*;
use vstd::string::StringExecFns;
use crate::api_call::Kind;
use crate::application::Application;
use crate::encoding::{pct_encode, spec_pct_encode};
use crate::params::{ParamSeq, push_param};
use crate::user::User;

verus! {

/// The HTTP methods the backend endpoints use. `Get` carries its parameters
/// in the query string; `Post` carries them in the body.
#[derive(Clone, Copy, Debug, PartialEq, Eq, Structural)]
pub enum Method {
    Get,
    Post,
}

impl Method {
    /// Whether requests of this method carry their parameters in a body
    /// rather than in the query string.
    pub open spec fn spec_carries_body(self) -> bool {
        self is Post
    }

    /// Whether requests of this method carry their parameters in a body.
    pub fn carries_body(&self) -> (b: bool)
        ensures
            b == self.spec_carries_body(),
    {
        match self {
            Method::Post => true,
            Method::Get => false,
        }
    }
}

/// Whether an optional user identifies itself by an OAuth token.
pub open spec fn user_is_oauth(user: Option<&User>) -> bool {
    match user {
        Some(u) => u matches User::OAuthToken(_),
        None => false,
    }
}

/// The decision table mapping (kind, application variant, user variant) to
/// (method, path). The rules are ordered and the first match wins: an OAuth
/// application outranks an OAuth user token, which outranks the default.
pub open spec fn spec_endpoint(kind: Kind, app_is_oauth: bool, user_is_oauth: bool) -> (
    Method,
    Seq<char>,
) {
    if kind is Authorize && app_is_oauth {
        (Method::Get, "/transactions/oauth_authorize.xml"@)
    } else if kind is Authorize && user_is_oauth {
        (Method::Get, "/transactions/oauth_authorize.xml"@)
    } else if kind is Authorize {
        (Method::Get, "/transactions/authorize.xml"@)
    } else if kind is AuthRep && app_is_oauth {
        (Method::Get, "/transactions/oauth_authrep.xml"@)
    } else if kind is AuthRep && user_is_oauth {
        (Method::Get, "/transactions/oauth_authrep.xml"@)
    } else if kind is AuthRep {
        (Method::Get, "/transactions/authrep.xml"@)
    } else {
        (Method::Post, "/transactions.xml"@)
    }
}

/// Resolves the endpoint for a call: a pure function of the call kind, the
/// application variant and the user variant.
pub fn endpoint(kind: &Kind, application: &Application, user: Option<&User>) -> (r: (
    Method,
    &'static str,
))
    ensures
        r.0 == spec_endpoint(*kind, application.spec_is_oauth(), user_is_oauth(user)).0,
        r.1@ == spec_endpoint(*kind, application.spec_is_oauth(), user_is_oauth(user)).1,
{
    let app_oauth = application.is_oauth();
    let user_oauth = match user {
        Some(User::OAuthToken(_)) => true,
        _ => false,
    };
    match kind {
        Kind::Authorize => {
            if app_oauth {
                (Method::Get, "/transactions/oauth_authorize.xml")
            } else if user_oauth {
                (Method::Get, "/transactions/oauth_authorize.xml")
            } else {
                (Method::Get, "/transactions/authorize.xml")
            }
        },
        Kind::AuthRep => {
            if app_oauth {
                (Method::Get, "/transactions/oauth_authrep.xml")
            } else if user_oauth {
                (Method::Get, "/transactions/oauth_authrep.xml")
            } else {
                (Method::Get, "/transactions/authrep.xml")
            }
        },
        Kind::Report => (Method::Post, "/transactions.xml"),
    }
}

/// Endpoint resolution is deterministic, and the first matching rule wins:
/// for an authorize or authrep call by an OAuth application the OAuth
/// endpoint is chosen whatever the user variant is, exactly as when no
/// OAuth user token is present.
pub proof fn lemma_oauth_application_takes_precedence(kind: Kind, user_is_oauth: bool)
    ensures
        spec_endpoint(kind, true, user_is_oauth) == spec_endpoint(kind, true, false),
        kind is Authorize ==> spec_endpoint(kind, true, user_is_oauth).1
            == "/transactions/oauth_authorize.xml"@,
        kind is AuthRep ==> spec_endpoint(kind, true, user_is_oauth).1
            == "/transactions/oauth_authrep.xml"@,
{
}

/// The query-string or body encoding of an ordered parameter list:
/// percent-encoded `key=value` pairs joined by `&`, in order.
pub open spec fn spec_encode_params(ps: ParamSeq) -> Seq<char>
    decreases ps.len(),
{
    if ps.len() == 0 {
        Seq::empty()
    } else {
        spec_encode_params(ps.drop_last()) + (if ps.len() == 1 {
            Seq::<char>::empty()
        } else {
            seq!['&']
        }) + spec_pct_encode(ps.last().0) + seq!['='] + spec_pct_encode(ps.last().1)
    }
}

/// Encodes an ordered parameter list as percent-encoded `key=value` pairs
/// joined by `&`.
pub fn encode_params(params: &Vec<(String, String)>) -> (s: String)
    ensures
        s@ == spec_encode_params(params.deep_view()),
{
    proof {
        reveal_strlit("&");
        reveal_strlit("=");
    }
    let ghost all = params.deep_view();
    let mut s = String::new();
    let mut idx: usize = 0;
    while idx < params.len()
        invariant
            idx <= params.len(),
            all == params.deep_view(),
            s@ == spec_encode_params(all.take(idx as int)),
            "&"@ == seq!['&'],
            "="@ == seq!['='],
        decreases params.len() - idx,
    {
        if idx > 0 {
            s.append("&");
        }
        let key = pct_encode(params[idx].0.as_str());
        let value = pct_encode(params[idx].1.as_str());
        s.append(key.as_str());
        s.append("=");
        s.append(value.as_str());
        proof {
            let taken = all.take(idx + 1);
            assert(taken.drop_last() =~= all.take(idx as int));
            assert(taken.last() == (params@[idx as int].0@, params@[idx as int].1@));
            assert(s@ =~= spec_encode_params(all.take(idx + 1)));
        }
        idx = idx + 1;
    }
    proof {
        assert(all.take(params@.len() as int) =~= all);
    }
    s
}

fn clone_params(params: &Vec<(String, String)>) -> (out: Vec<(String, String)>)
    ensures
        out.deep_view() == params.deep_view(),
{
    let mut out: Vec<(String, String)> = Vec::new();
    let mut idx: usize = 0;
    while idx < params.len()
        invariant
            idx <= params.len(),
            out.deep_view() == params.deep_view().take(idx as int),
        decreases params.len() - idx,
    {
        push_param(&mut out, params[idx].0.clone(), params[idx].1.clone());
        proof {
            assert(params.deep_view().take(idx + 1) =~= params.deep_view().take(idx as int)
                + seq![params.deep_view()[idx as int]]);
        }
        idx = idx + 1;
    }
    proof {
        assert(params.deep_view().take(params@.len() as int) =~= params.deep_view());
    }
    out
}

/// The serialized parameters of one call: the ordered (key, value) pairs
/// and the originating HTTP method. Consumed into the query string for a
/// query-bearing method and into the body otherwise — never both.
#[derive(Clone, Debug)]
pub struct RequestParameters {
    pub method: Method,
    pub params: Vec<(String, String)>,
}

impl RequestParameters {
    /// The encoded form of the held parameter list.
    pub open spec fn spec_encoded(&self) -> Seq<char> {
        spec_encode_params(self.params.deep_view())
    }

    /// Packages an ordered parameter list for the given method.
    pub fn new(method: &Method, params: &Vec<(String, String)>) -> (rp: RequestParameters)
        ensures
            rp.method == *method,
            rp.params.deep_view() == params.deep_view(),
    {
        RequestParameters { method: *method, params: clone_params(params) }
    }

    /// The request body: the encoded parameters exactly when the method
    /// carries a body.
    pub fn body(&self) -> (b: Option<String>)
        ensures
            self.method.spec_carries_body() ==> (b matches Some(s) && s@ == self.spec_encoded()),
            !self.method.spec_carries_body() ==> b is None,
    {
        if self.method.carries_body() {
            Some(encode_params(&self.params))
        } else {
            None
        }
    }

    /// The path with the query string appended: `path?params` for a
    /// query-bearing method with parameters, the path alone otherwise.
    pub fn path_and_query(&self, path: &str) -> (r: String)
        ensures
            r@ == spec_path_and_query(self.method, path@, self.spec_encoded()),
    {
        proof {
            reveal_strlit("?");
        }
        let encoded = encode_params(&self.params);
        if self.method.carries_body() || encoded.as_str().is_empty() {
            path.to_owned()
        } else {
            let mut r = path.to_owned();
            r.append("?");
            r.append(encoded.as_str());
            proof {
                assert(r@ =~= spec_path_and_query(self.method, path@, self.spec_encoded()));
            }
            r
        }
    }
}

/// The URI of a request: the path, with `?` and the encoded parameters
/// appended exactly when the method is query-bearing and some parameter
/// was emitted.
pub open spec fn spec_path_and_query(method: Method, path: Seq<char>, encoded: Seq<char>) -> Seq<
    char,
> {
    if method.spec_carries_body() || encoded.len() == 0 {
        path
    } else {
        path + seq!['?'] + encoded
    }
}

} // verus!
