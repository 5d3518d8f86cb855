//! The wire request adapter: assembles method, URI, the fixed `User-Agent`
//! header and the body into a transport-ready `http::Request` value.

use vstd::prelude::*;
use crate::api_call::ApiCall;
use crate::http::{
    Method, RequestParameters, spec_endpoint, spec_path_and_query, endpoint, user_is_oauth,
};

verus! {

/// The fixed `User-Agent` header value: the library identifier and version.
pub const USER_AGENT: &'static str = "threescalers/0.1.0";

#[verifier::external_type_specification]
#[verifier::external_body]
#[verifier::reject_recursive_types(T)]
pub struct ExRequest<T>(http::Request<T>);

#[verifier::external_type_specification]
#[verifier::external_body]
pub struct ExHttpError(http::Error);

/// Whether the `http` crate's request builder accepts the given URI and
/// header strings: its acceptance is a function of those strings alone.
pub uninterp spec fn http_builder_accepts(
    uri: Seq<char>,
    header_name: Seq<char>,
    header_value: Seq<char>,
) -> bool;

/// Why assembling the final wire request failed: the transport types
/// rejected one of its parts. With the closed set of path templates this
/// indicates a programming error, not bad input.
#[derive(Debug)]
pub enum RequestError {
    Http(http::Error),
}

/// Relies on `http::request::Builder` (`http::Request::builder`, then
/// `method`, `uri`, `header`, `body`): assembles a request value from the
/// given parts, or reports the part that was rejected. Both method
/// variants map to constants the builder always accepts, so acceptance
/// depends on the URI and header strings alone.
#[verifier::external_body]
fn build_http_request(
    method: &Method,
    uri: &str,
    header_name: &str,
    header_value: &str,
    body: String,
) -> (r: Result<http::Request<String>, http::Error>)
    ensures
        (r matches Ok(_)) <==> http_builder_accepts(uri@, header_name@, header_value@),
{
    let m = match method {
        Method::Get => http::Method::GET,
        Method::Post => http::Method::POST,
    };
    http::Request::builder().method(m).uri(uri).header(header_name, header_value).body(body)
}

/// A transport-ready description of one API call: the resolved method and
/// path, and the packaged parameters. Built once per call and consumed
/// once into a request.
#[derive(Clone, Debug)]
pub struct Req {
    pub method: Method,
    pub path: &'static str,
    pub rp: RequestParameters,
}

impl Req {
    /// Builds the request description for a call: resolves the endpoint
    /// from the decision table and serializes the call's parameters.
    pub fn from(call: &ApiCall) -> (r: Req)
        ensures
            r.method == spec_endpoint(
                call.kind,
                call.application.spec_is_oauth(),
                user_is_oauth(call.user),
            ).0,
            r.path@ == spec_endpoint(
                call.kind,
                call.application.spec_is_oauth(),
                user_is_oauth(call.user),
            ).1,
            r.rp.method == r.method,
            r.rp.params.deep_view() == call.spec_params(),
    {
        let (method, path) = endpoint(&call.kind, call.application, call.user);
        let mut params: Vec<(String, String)> = Vec::new();
        call.to_params(&mut params);
        let rp = RequestParameters::new(&method, &params);
        Req { method, path, rp }
    }

    /// The request URI: the path, with the query string appended for a
    /// query-bearing method with parameters.
    pub fn uri(&self) -> (u: String)
        ensures
            u@ == spec_path_and_query(self.rp.method, self.path@, self.rp.spec_encoded()),
    {
        self.rp.path_and_query(self.path)
    }

    /// The request body: the encoded parameters for a body-carrying
    /// method, the empty string otherwise.
    pub fn body_string(&self) -> (b: String)
        ensures
            self.rp.method.spec_carries_body() ==> b@ == self.rp.spec_encoded(),
            !self.rp.method.spec_carries_body() ==> b@ == Seq::<char>::empty(),
    {
        match self.rp.body() {
            Some(s) => s,
            None => String::new(),
        }
    }

    /// Assembles the final request value: the resolved method and URI, the
    /// fixed `User-Agent` header and the body. A part the transport types
    /// reject is reported as an error rather than a panic; with the closed
    /// set of path templates and percent-encoded parameters this cannot
    /// happen for data reasons.
    pub fn into_request(self) -> (r: Result<http::Request<String>, RequestError>)
        ensures
            (r matches Ok(_)) <==> http_builder_accepts(
                spec_path_and_query(self.rp.method, self.path@, self.rp.spec_encoded()),
                "User-Agent"@,
                USER_AGENT@,
            ),
    {
        let uri = self.uri();
        let body = self.body_string();
        match build_http_request(&self.method, uri.as_str(), "User-Agent", USER_AGENT, body) {
            Ok(r) => Ok(r),
            Err(e) => Err(RequestError::Http(e)),
        }
    }
}

} // verus!
