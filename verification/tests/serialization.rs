use threescalers::api_call::{ApiCall, Kind};
use threescalers::application::Application;
use threescalers::credentials::Credentials;
use threescalers::params::ToParams;
use threescalers::service::Service;
use threescalers::transaction::Transaction;
use threescalers::usage::Usage;
use threescalers::user::{OAuthToken, User, UserId};

fn pairs(raw: &[(&str, &str)]) -> Vec<(String, String)> {
    raw.iter().map(|(k, v)| (k.to_string(), v.to_string())).collect()
}

#[test]
fn transforms_service_id_and_key_into_params() {
    let service_id = "my_service_id";
    let provider_key = "my_provider_key";
    let creds = Credentials::from_key(provider_key);
    let service = Service::new(service_id.to_string(), creds).unwrap();

    let mut result = Vec::new();
    service.to_params(&mut result);

    let expected = pairs(&[("service_id", service_id), ("provider_key", provider_key)]);
    assert_eq!(expected, result);
}

#[test]
fn transforms_service_id_and_token_into_params() {
    let service_id = "my_service_id";
    let token = "my_token";
    let creds = Credentials::from_token(token);
    let service = Service::new(service_id.to_string(), creds).unwrap();

    let mut result = Vec::new();
    service.to_params(&mut result);

    let expected = pairs(&[("service_id", service_id), ("service_token", token)]);
    assert_eq!(expected, result);
}

#[test]
fn transforms_user_id_into_params() {
    let user_id = "my_user_id";
    let user = User::from_user_id(user_id.to_owned());

    let mut result = Vec::new();
    user.to_params(&mut result);

    let expected = pairs(&[("user_id", user_id)]);
    assert_eq!(expected, result);
}

#[test]
fn transforms_oauth_token_into_params() {
    let oauth_token = "my_oauth_token";
    let user = User::from_oauth_token(oauth_token.to_owned());

    let mut result = Vec::new();
    user.to_params(&mut result);

    let expected = pairs(&[("access_token", oauth_token)]);
    assert_eq!(expected, result);
}

#[test]
fn identity_values_convert_and_parse() {
    let id: UserId = "my_user_id".to_string().into();
    let user: User = id.into();
    let mut result = Vec::new();
    user.to_params(&mut result);
    assert_eq!(result, pairs(&[("user_id", "my_user_id")]));

    let token: OAuthToken = "my_token".parse().unwrap();
    assert_eq!(token.as_str(), "my_token");
    let user: User = token.into();
    let mut result = Vec::new();
    user.to_params(&mut result);
    assert_eq!(result, pairs(&[("access_token", "my_token")]));
}

#[test]
fn transforms_app_id_and_key_into_params() {
    let app = Application::from_app_id_and_key("my_app_id".to_string(), "my_app_key".to_string());

    let mut result = Vec::new();
    app.to_params(&mut result);

    let expected = pairs(&[("app_id", "my_app_id"), ("app_key", "my_app_key")]);
    assert_eq!(expected, result);
}

#[test]
fn transforms_usage_metrics_in_insertion_order_with_repeats() {
    let mut usage = Usage::new();
    usage.push_metric("hits".to_string(), "1".to_string());
    usage.push_metric("transfer".to_string(), "500".to_string());
    usage.push_metric("hits".to_string(), "2".to_string());

    let mut result = Vec::new();
    usage.to_params(&mut result);

    let expected = pairs(&[("hits", "1"), ("transfer", "500"), ("hits", "2")]);
    assert_eq!(expected, result);
}

#[test]
fn transaction_serializes_fields_in_fixed_order() {
    let app = Application::from_app_id("my_app_id".to_string());
    let user = User::from_user_id("my_user_id".to_string());
    let usage = Usage::from_pairs(pairs(&[("hits", "1")]));
    let transaction = Transaction::new(&app, Some(&user), Some(&usage), Some(1000));

    let mut result = Vec::new();
    transaction.to_params(&mut result);

    let expected = pairs(&[
        ("timestamp", "1000"),
        ("app_id", "my_app_id"),
        ("user_id", "my_user_id"),
        ("hits", "1"),
    ]);
    assert_eq!(expected, result);
}

#[test]
fn report_mangles_transaction_keys_by_position() {
    let creds = Credentials::from_key("my_key");
    let service = Service::new("my_service".to_string(), creds).unwrap();
    let app = Application::from_app_id("my_app_id".to_string());
    let usage = Usage::from_pairs(pairs(&[("hits", "1")]));
    // two transactions with identical content: the index alone distinguishes them
    let transactions = vec![
        Transaction::new(&app, None, Some(&usage), Some(1000)),
        Transaction::new(&app, None, Some(&usage), Some(1000)),
    ];
    let call = ApiCall::new(Kind::Report, &service, &app, None, &transactions);

    let mut result = Vec::new();
    call.to_params(&mut result);

    let expected = pairs(&[
        ("service_id", "my_service"),
        ("provider_key", "my_key"),
        ("app_id", "my_app_id"),
        ("transactions[0][timestamp]", "1000"),
        ("transactions[0][app_id]", "my_app_id"),
        ("transactions[0][hits]", "1"),
        ("transactions[1][timestamp]", "1000"),
        ("transactions[1][app_id]", "my_app_id"),
        ("transactions[1][hits]", "1"),
    ]);
    assert_eq!(expected, result);
}

#[test]
fn authorize_serializes_single_transaction_unmangled() {
    let creds = Credentials::from_key("my_key");
    let service = Service::new("my_service".to_string(), creds).unwrap();
    let app = Application::from_app_id("my_app_id".to_string());
    let user = User::from_user_id("my_user_id".to_string());
    let usage = Usage::from_pairs(pairs(&[("hits", "1")]));
    let transactions = vec![Transaction::new(&app, Some(&user), Some(&usage), None)];
    let call = ApiCall::new(Kind::Authorize, &service, &app, Some(&user), &transactions);

    let mut result = Vec::new();
    call.to_params(&mut result);

    let expected = pairs(&[
        ("service_id", "my_service"),
        ("provider_key", "my_key"),
        ("app_id", "my_app_id"),
        ("user_id", "my_user_id"),
        ("app_id", "my_app_id"),
        ("user_id", "my_user_id"),
        ("hits", "1"),
    ]);
    assert_eq!(expected, result);
}

#[test]
fn serializing_twice_gives_identical_sequences() {
    let creds = Credentials::from_token("my_token");
    let service = Service::new("my_service".to_string(), creds).unwrap();
    let app = Application::from_oauth_token("my_app_token".to_string());
    let usage = Usage::from_pairs(pairs(&[("hits", "3")]));
    let transactions = vec![Transaction::new(&app, None, Some(&usage), Some(-42))];
    let call = ApiCall::new(Kind::Report, &service, &app, None, &transactions);

    let mut first = Vec::new();
    call.to_params(&mut first);
    let mut second = Vec::new();
    call.to_params(&mut second);

    assert_eq!(first, second);
}

#[test]
fn batch_structure_is_recoverable_from_flat_params() {
    let creds = Credentials::from_key("my_key");
    let service = Service::new("my_service".to_string(), creds).unwrap();
    let app = Application::from_app_id("my_app_id".to_string());
    let usage = Usage::from_pairs(pairs(&[("hits", "1"), ("transfer", "9")]));
    let user = User::from_user_id("my_user_id".to_string());
    let transactions = vec![
        Transaction::new(&app, Some(&user), Some(&usage), Some(7)),
        Transaction::new(&app, None, None, None),
    ];
    let call = ApiCall::new(Kind::Report, &service, &app, None, &transactions);

    let mut flat = Vec::new();
    call.to_params(&mut flat);

    // Undo the documented mangling scheme: `transactions[<n>][<key>]`.
    let mut recovered: Vec<Vec<String>> = Vec::new();
    for (key, _) in &flat {
        if let Some(rest) = key.strip_prefix("transactions[") {
            let close = rest.find(']').unwrap();
            let index: usize = rest[..close].parse().unwrap();
            let inner = &rest[close + 2..rest.len() - 1];
            if recovered.len() <= index {
                recovered.resize(index + 1, Vec::new());
            }
            recovered[index].push(inner.to_string());
        }
    }

    assert_eq!(recovered.len(), 2);
    assert_eq!(
        recovered[0],
        vec!["timestamp", "app_id", "user_id", "hits", "transfer"]
    );
    assert_eq!(recovered[1], vec!["app_id"]);
}
