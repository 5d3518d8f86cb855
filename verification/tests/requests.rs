use threescalers::api_call::{ApiCall, Kind};
use threescalers::application::Application;
use threescalers::credentials::Credentials;
use threescalers::decimal::{i64_to_dec, u64_to_dec};
use threescalers::errors::ValidationError;
use threescalers::http::request::{Req, USER_AGENT};
use threescalers::http::{Method, RequestParameters};
use threescalers::service::Service;
use threescalers::transaction::Transaction;
use threescalers::usage::Usage;
use threescalers::user::User;

#[test]
fn renders_decimals_exactly() {
    assert_eq!(u64_to_dec(0), "0");
    assert_eq!(u64_to_dec(7), "7");
    assert_eq!(u64_to_dec(1234567890), "1234567890");
    assert_eq!(u64_to_dec(u64::MAX), "18446744073709551615");
    assert_eq!(i64_to_dec(1000), "1000");
    assert_eq!(i64_to_dec(-42), "-42");
    assert_eq!(i64_to_dec(i64::MIN), "-9223372036854775808");
}

#[test]
fn get_parameters_go_to_the_query_string_only() {
    let params = vec![
        ("service_id".to_string(), "svc".to_string()),
        ("provider_key".to_string(), "pk".to_string()),
    ];
    let rp = RequestParameters::new(&Method::Get, &params);
    assert_eq!(rp.body(), None);
    assert_eq!(
        rp.path_and_query("/transactions/authorize.xml"),
        "/transactions/authorize.xml?service_id=svc&provider_key=pk"
    );
}

#[test]
fn post_parameters_go_to_the_body_only() {
    let params = vec![("service_id".to_string(), "svc".to_string())];
    let rp = RequestParameters::new(&Method::Post, &params);
    assert_eq!(rp.body(), Some("service_id=svc".to_string()));
    assert_eq!(rp.path_and_query("/transactions.xml"), "/transactions.xml");
}

#[test]
fn empty_parameter_list_leaves_the_path_alone() {
    let params = Vec::new();
    let rp = RequestParameters::new(&Method::Get, &params);
    assert_eq!(rp.path_and_query("/transactions/authorize.xml"), "/transactions/authorize.xml");
}

#[test]
fn builds_authorize_request_description() {
    let creds = Credentials::from_key("my_key");
    let service = Service::new("my_service".to_string(), creds).unwrap();
    let app = Application::from_app_id("my_app_id".to_string());
    let user = User::from_user_id("my_user_id".to_string());
    let transactions = Vec::new();
    let call = ApiCall::new(Kind::Authorize, &service, &app, Some(&user), &transactions);

    let req = Req::from(&call);
    assert_eq!(req.method, Method::Get);
    assert_eq!(req.path, "/transactions/authorize.xml");
    assert_eq!(
        req.uri(),
        "/transactions/authorize.xml?service_id=my_service&provider_key=my_key&app_id=my_app_id&user_id=my_user_id"
    );
    assert_eq!(req.body_string(), "");
}

#[test]
fn builds_report_request_description() {
    let creds = Credentials::from_key("my_key");
    let service = Service::new("my_service".to_string(), creds).unwrap();
    let app = Application::from_app_id("my_app_id".to_string());
    let usage = Usage::from_pairs(vec![("hits".to_string(), "1".to_string())]);
    let transactions = vec![Transaction::new(&app, None, Some(&usage), Some(1000))];
    let call = ApiCall::new(Kind::Report, &service, &app, None, &transactions);

    let req = Req::from(&call);
    assert_eq!(req.method, Method::Post);
    assert_eq!(req.uri(), "/transactions.xml");
    assert_eq!(
        req.body_string(),
        "service_id=my_service&provider_key=my_key&app_id=my_app_id\
         &transactions%5B0%5D%5Btimestamp%5D=1000\
         &transactions%5B0%5D%5Bapp_id%5D=my_app_id\
         &transactions%5B0%5D%5Bhits%5D=1"
    );
}

#[test]
fn assembles_final_wire_request() {
    let creds = Credentials::from_token("my_token");
    let service = Service::new("my_service".to_string(), creds).unwrap();
    let app = Application::from_app_id("my_app_id".to_string());
    let transactions = Vec::new();
    let call = ApiCall::new(Kind::Authorize, &service, &app, None, &transactions);

    let request = Req::from(&call).into_request().unwrap();
    assert_eq!(request.method(), http::Method::GET);
    assert_eq!(
        request.uri(),
        "/transactions/authorize.xml?service_id=my_service&service_token=my_token&app_id=my_app_id"
    );
    assert_eq!(request.headers().get("User-Agent").unwrap(), USER_AGENT);
    assert_eq!(request.body(), "");
}

#[test]
fn assembles_post_wire_request_with_body() {
    let creds = Credentials::from_key("my_key");
    let service = Service::new("my_service".to_string(), creds).unwrap();
    let app = Application::from_app_id("my_app_id".to_string());
    let transactions = Vec::new();
    let call = ApiCall::new(Kind::Report, &service, &app, None, &transactions);

    let request = Req::from(&call).into_request().unwrap();
    assert_eq!(request.method(), http::Method::POST);
    assert_eq!(request.uri(), "/transactions.xml");
    assert_eq!(request.body(), "service_id=my_service&provider_key=my_key&app_id=my_app_id");
}

#[test]
fn empty_service_id_is_rejected_at_construction() {
    let creds = Credentials::from_key("my_key");
    let result = Service::new(String::new(), creds);
    assert!(matches!(result, Err(ValidationError::EmptyServiceId)));
}

#[test]
fn reserved_characters_are_percent_encoded_and_never_fail_late() {
    // spaces, separators and non-ASCII text in values survive encoding,
    // and building the request cannot fail for data reasons
    let creds = Credentials::from_key("a&b=c");
    let service = Service::new("my service".to_string(), creds).unwrap();
    let app = Application::from_app_id("caf\u{e9}".to_string());
    let transactions = Vec::new();
    let call = ApiCall::new(Kind::Authorize, &service, &app, None, &transactions);

    let req = Req::from(&call);
    assert_eq!(
        req.uri(),
        "/transactions/authorize.xml?service_id=my%20service&provider_key=a%26b%3Dc&app_id=caf%C3%A9"
    );
    let request = req.into_request().unwrap();
    assert_eq!(
        request.uri(),
        "/transactions/authorize.xml?service_id=my%20service&provider_key=a%26b%3Dc&app_id=caf%C3%A9"
    );
}
