use threescalers::api_call::Kind;
use threescalers::application::Application;
use threescalers::http::{Method, endpoint};
use threescalers::user::User;

fn app_id() -> Application {
    Application::from_app_id("my_app_id".to_string())
}

fn app_oauth() -> Application {
    Application::from_oauth_token("my_app_token".to_string())
}

fn user_id() -> User {
    User::from_user_id("my_user_id".to_string())
}

fn user_oauth() -> User {
    User::from_oauth_token("my_user_token".to_string())
}

#[test]
fn authorize_defaults_to_standard_endpoint() {
    let (method, path) = endpoint(&Kind::Authorize, &app_id(), None);
    assert_eq!(method, Method::Get);
    assert_eq!(path, "/transactions/authorize.xml");

    let user = user_id();
    let (method, path) = endpoint(&Kind::Authorize, &app_id(), Some(&user));
    assert_eq!(method, Method::Get);
    assert_eq!(path, "/transactions/authorize.xml");
}

#[test]
fn authorize_oauth_application_outranks_default() {
    // rule 1 wins over rule 3 even though both could match
    let user = user_id();
    let (method, path) = endpoint(&Kind::Authorize, &app_oauth(), Some(&user));
    assert_eq!(method, Method::Get);
    assert_eq!(path, "/transactions/oauth_authorize.xml");

    // and over rule 2 when the user token is also OAuth
    let user = user_oauth();
    let (_, path) = endpoint(&Kind::Authorize, &app_oauth(), Some(&user));
    assert_eq!(path, "/transactions/oauth_authorize.xml");
}

#[test]
fn authorize_oauth_user_token_selects_oauth_endpoint() {
    let user = user_oauth();
    let (method, path) = endpoint(&Kind::Authorize, &app_id(), Some(&user));
    assert_eq!(method, Method::Get);
    assert_eq!(path, "/transactions/oauth_authorize.xml");
}

#[test]
fn authrep_resolves_like_authorize_but_to_authrep_paths() {
    let (_, path) = endpoint(&Kind::AuthRep, &app_id(), None);
    assert_eq!(path, "/transactions/authrep.xml");

    let user = user_oauth();
    let (_, path) = endpoint(&Kind::AuthRep, &app_id(), Some(&user));
    assert_eq!(path, "/transactions/oauth_authrep.xml");

    let user = user_id();
    let (method, path) = endpoint(&Kind::AuthRep, &app_oauth(), Some(&user));
    assert_eq!(method, Method::Get);
    assert_eq!(path, "/transactions/oauth_authrep.xml");
}

#[test]
fn report_resolves_to_fixed_post_endpoint_for_all_variants() {
    let user = user_oauth();
    let (method, path) = endpoint(&Kind::Report, &app_id(), None);
    assert_eq!(method, Method::Post);
    assert_eq!(path, "/transactions.xml");

    let (method, path) = endpoint(&Kind::Report, &app_oauth(), Some(&user));
    assert_eq!(method, Method::Post);
    assert_eq!(path, "/transactions.xml");
}

#[test]
fn endpoint_resolution_is_deterministic() {
    let user = user_oauth();
    let first = endpoint(&Kind::AuthRep, &app_oauth(), Some(&user));
    let second = endpoint(&Kind::AuthRep, &app_oauth(), Some(&user));
    assert_eq!(first, second);
}
