use anchorbell_engine::execution::binance::BinanceGateway;
use anchorbell_engine::execution::credential_store::{target_name, CredentialStoreError, PersistentCredentialStore};
use anchorbell_engine::execution::credentials::{BinanceCredentials, CredentialsError};
use anchorbell_engine::execution::environment::BinanceEnvironment;
use anchorbell_engine::execution::gateway::{ExchangeOrder, ExecutionGateway, GatewayResult, SimulationGateway};
use anchorbell_engine::execution::trading_permission::TradingPermission;

#[test]
fn unbound_binance_gateway_never_claims_exchange_acceptance() {
    let gateway = BinanceGateway::new(true);
    let order = ExchangeOrder {
        client_id: 1,
        price: 100,
        quantity: 1,
        post_only: true,
        reduce_only: false,
    };
    assert_eq!(gateway.submit(order), GatewayResult::Unavailable);
    assert_eq!(gateway.cancel(1), GatewayResult::Unavailable);
}

#[test]
fn gateway_environment_follows_the_testnet_flag() {
    assert_eq!(BinanceGateway::new(true).environment, BinanceEnvironment::Testnet);
    assert_eq!(BinanceGateway::new(false).environment, BinanceEnvironment::Production);
    assert_eq!(
        BinanceGateway::new(false).endpoints().rest_base,
        BinanceEnvironment::Production.endpoints().rest_base
    );
}

#[test]
fn simulation_gateway_accepts_only_passive_or_reducing_orders() {
    let order = |post_only, reduce_only| ExchangeOrder { client_id: 7, price: 10, quantity: 2, post_only, reduce_only };
    assert_eq!(SimulationGateway.submit(order(true, false)), GatewayResult::Accepted);
    assert_eq!(SimulationGateway.submit(order(false, true)), GatewayResult::Accepted);
    assert_eq!(SimulationGateway.submit(order(false, false)), GatewayResult::Rejected);
    assert_eq!(SimulationGateway.cancel(7), GatewayResult::Accepted);
}

#[test]
fn target_names_are_separate_for_each_environment() {
    assert_eq!(target_name(BinanceEnvironment::Testnet), "AnchorBell/Binance/testnet");
    assert_eq!(target_name(BinanceEnvironment::Production), "AnchorBell/Binance/production");
}

#[test]
fn credential_store_without_secure_storage_refuses_everything() {
    let store = PersistentCredentialStore;
    let credentials = BinanceCredentials::new("key".to_string(), "secret".to_string()).unwrap();
    assert!(!store.is_available());
    assert_eq!(store.load(BinanceEnvironment::Testnet), Err(CredentialStoreError::Unsupported));
    assert_eq!(store.save(BinanceEnvironment::Testnet, &credentials), Err(CredentialStoreError::Unsupported));
    assert_eq!(store.delete(BinanceEnvironment::Production), Err(CredentialStoreError::Unsupported));
    assert_eq!(store.has_saved(BinanceEnvironment::Production), Err(CredentialStoreError::Unsupported));
}

#[test]
fn credentials_need_a_key_and_a_secret() {
    assert_eq!(
        BinanceCredentials::new(String::new(), "s".to_string()),
        Err(CredentialsError::EmptyApiKey)
    );
    assert_eq!(
        BinanceCredentials::new("k".to_string(), String::new()),
        Err(CredentialsError::EmptyApiSecret)
    );
    assert_eq!(
        BinanceCredentials::new("k".to_string(), "s".to_string()).unwrap().api_secret,
        "s"
    );
}

#[test]
fn denied_permission_never_hands_back_the_operation() {
    for permission in [
        TradingPermission::new(false, true),
        TradingPermission::new(true, false),
        TradingPermission::new(false, false),
    ] {
        assert!(!permission.allowed());
        let calls = std::cell::Cell::new(0);
        let admitted = permission.permit(|| calls.set(calls.get() + 1));
        assert!(admitted.is_none());
        assert_eq!(calls.get(), 0);
    }
}

#[test]
fn enabled_permission_hands_back_the_operation() {
    let permission = TradingPermission::new(true, true);
    assert!(permission.allowed());
    let ok = permission.permit(|| Ok::<u32, &str>(7)).map(|op| op());
    let err = permission.permit(|| Err::<u32, &str>("boom")).map(|op| op());
    assert_eq!(ok, Some(Ok(7)));
    assert_eq!(err, Some(Err("boom")));
}
