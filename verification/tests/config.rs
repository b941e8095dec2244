use rust_grpc_proxy::config::{
    auth_token, subscription_request, CommitmentLevel, FILTER_NAME, GRPC_ENDPOINT, GRPC_TOKEN,
    HUB_CAPACITY, LISTEN_ADDRESS,
};
use rust_grpc_proxy::extract::PUMP_FUN_PROGRAM_ID;

#[test]
fn fixed_configuration_values() {
    assert_eq!(GRPC_ENDPOINT, "https://fr.grpc.gadflynode.com:25565");
    assert!(GRPC_ENDPOINT.starts_with("https://"));
    assert_eq!(GRPC_TOKEN, "");
    assert_eq!(FILTER_NAME, "pump_fun");
    assert_eq!(LISTEN_ADDRESS, "0.0.0.0:8725");
    assert_eq!(HUB_CAPACITY, 10_000);
}

#[test]
fn request_asks_for_the_program_at_processed_level() {
    let request = subscription_request(PUMP_FUN_PROGRAM_ID);
    assert_eq!(request.filter_name, "pump_fun");
    assert_eq!(request.filter.account_include, vec![PUMP_FUN_PROGRAM_ID.to_string()]);
    assert!(request.filter.account_exclude.is_empty());
    assert!(request.filter.account_required.is_empty());
    assert_eq!(request.filter.vote, Some(false));
    assert_eq!(request.filter.failed, Some(false));
    assert_eq!(request.filter.signature, None);
    assert_eq!(request.commitment, CommitmentLevel::Processed);
}

#[test]
fn empty_token_is_not_attached() {
    assert_eq!(auth_token(""), None);
    assert_eq!(auth_token(GRPC_TOKEN), None);
    assert_eq!(auth_token("secret"), Some("secret".to_string()));
}
