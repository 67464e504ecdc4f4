use anchorbell_engine::execution::intent::Side;
use anchorbell_engine::execution::environment::BinanceEnvironment;
use anchorbell_engine::execution::safety::{DeploymentPolicy, SafetyError};
use anchorbell_engine::execution::rest::{
    cancel_all_open_orders_call, cancel_order_call, check_exchange_code, check_keepalive_key, check_listen_key,
    check_order_identity, maker_order_call, position_risk_call, prepare_signed, query_order_call, send_failure,
    RestMethod,
    exchange_error, signed_open_orders_query, signed_tradfi_contract_body, valid_client_order_id,
    valid_positive_decimal, valid_symbol, BinanceMakerOrderRequest, BinanceOrderResponse, BinanceRestError,
    BinanceTradFiContractResponse,
};
use anchorbell_engine::execution::signing::SigningError;

fn request() -> BinanceMakerOrderRequest {
    BinanceMakerOrderRequest {
        symbol: "BTCUSDT".into(),
        side: Side::Buy,
        price: "100.00".into(),
        quantity: "0.001".into(),
        client_order_id: "anchorbell-1".into(),
        reduce_only: false,
    }
}

fn response_for(request: &BinanceMakerOrderRequest) -> BinanceOrderResponse {
    BinanceOrderResponse {
        order_id: 42,
        symbol: request.symbol.clone(),
        status: "NEW".into(),
        client_order_id: request.client_order_id.clone(),
        side: "BUY".into(),
        time_in_force: "GTX".into(),
        order_type: "LIMIT".into(),
        price: request.price.clone(),
        original_quantity: request.quantity.clone(),
        executed_quantity: "0".into(),
        average_price: String::new(),
        update_time_ms: 0,
        reduce_only: request.reduce_only,
    }
}

#[test]
fn builds_signed_tradfi_contract_body_without_order_fields() {
    let body = signed_tradfi_contract_body("secret", 100, 5000).unwrap();
    assert!(body.contains("recvWindow=5000"));
    assert!(body.contains("timestamp=100"));
    assert!(body.contains("signature="));
    assert!(!body.contains("apiKey="));
    assert!(!body.contains("symbol="));
    assert!(!body.contains("secret"));
}

#[test]
fn builds_symbol_scoped_signed_open_orders_query() {
    let query = signed_open_orders_query(Some("BTCUSDT"), "secret", 100, 5000).unwrap();
    assert!(query.contains("symbol=BTCUSDT"));
    assert!(!query.contains("apiKey="));
    assert!(query.contains("recvWindow=5000"));
    assert!(query.contains("signature="));
    assert!(!query.contains("secret"));
}

#[test]
fn validates_maker_order_fields_before_transport() {
    let request = request();
    assert!(request.validate().is_ok());
    assert!(!valid_positive_decimal("0"));
    assert!(!valid_positive_decimal("-1"));
    assert!(!valid_client_order_id("has spaces"));
}

#[test]
fn treats_http_503_as_unknown_execution() {
    let body = br#"{\"code\":-1001,\"msg\":\"Unknown error, please check your request or account status.\"}"#;
    let decoded = serde_json::from_slice::<serde_json::Value>(body).ok();
    assert!(decoded.is_none());
    let text = String::from_utf8_lossy(body).trim().to_owned();
    assert!(matches!(
        exchange_error(503, None, text),
        BinanceRestError::UnknownExecution { status: 503, .. }
    ));
}

#[test]
fn classifies_decoded_and_undecoded_errors() {
    let decoded = || Some(BinanceTradFiContractResponse { code: -2010, msg: "rejected".into() });
    assert_eq!(
        exchange_error(400, decoded(), "raw".into()),
        BinanceRestError::Exchange { code: -2010, message: "rejected".into() }
    );
    assert_eq!(exchange_error(418, None, "raw".into()), BinanceRestError::HttpStatus { status: 418 });
    assert_eq!(
        exchange_error(503, decoded(), "raw".into()),
        BinanceRestError::UnknownExecution { status: 503, message: "rejected".into() }
    );
    assert_eq!(
        exchange_error(503, None, "raw".into()),
        BinanceRestError::UnknownExecution { status: 503, message: "raw".into() }
    );
}

#[test]
fn reports_the_first_invalid_order_field() {
    let mut r = request();
    r.symbol = "BTC-USDT".into();
    r.price = "x".into();
    assert_eq!(r.validate(), Err(BinanceRestError::InvalidOrderRequest("symbol")));
    let mut r = request();
    r.price = "1.2.3".into();
    assert_eq!(r.validate(), Err(BinanceRestError::InvalidOrderRequest("price")));
    let mut r = request();
    r.quantity = "0.000".into();
    assert_eq!(r.validate(), Err(BinanceRestError::InvalidOrderRequest("quantity")));
    let mut r = request();
    r.client_order_id = "a".repeat(37);
    assert_eq!(r.validate(), Err(BinanceRestError::InvalidOrderRequest("client_order_id")));
    r.client_order_id = "a".repeat(36);
    assert!(r.validate().is_ok());
}

#[test]
fn wire_field_rules() {
    assert!(valid_symbol("BTCUSDT"));
    assert!(!valid_symbol(""));
    assert!(!valid_symbol("btc usdt"));
    assert!(valid_positive_decimal("0.001"));
    assert!(valid_positive_decimal("10"));
    assert!(valid_positive_decimal(".5"));
    assert!(!valid_positive_decimal(""));
    assert!(!valid_positive_decimal("0.0"));
    assert!(!valid_positive_decimal("1e5"));
    assert!(valid_client_order_id("a.b_c:d-e"));
    assert!(!valid_client_order_id(""));
}

#[test]
fn maker_order_parameters_are_post_only_limit() {
    let mut r = request();
    let params = r.order_params();
    assert_eq!(params.get("timeInForce"), Some(&"GTX".to_string()));
    assert_eq!(params.get("type"), Some(&"LIMIT".to_string()));
    assert_eq!(params.get("side"), Some(&"BUY".to_string()));
    assert_eq!(params.get("newOrderRespType"), Some(&"RESULT".to_string()));
    assert_eq!(params.get("reduceOnly"), None);
    assert_eq!(params.len(), 8);
    r.reduce_only = true;
    r.side = Side::Sell;
    let params = r.order_params();
    assert_eq!(params.get("reduceOnly"), Some(&"true".to_string()));
    assert_eq!(params.get("side"), Some(&"SELL".to_string()));
}

#[test]
fn order_responses_must_match_the_request() {
    let r = request();
    assert!(r.check_response(&response_for(&r)).is_ok());
    let mut wrong = response_for(&r);
    wrong.symbol = "ETHUSDT".into();
    assert_eq!(r.check_response(&wrong), Err(BinanceRestError::InvalidOrderResponse("symbol")));
    let mut wrong = response_for(&r);
    wrong.client_order_id = "other".into();
    assert_eq!(r.check_response(&wrong), Err(BinanceRestError::InvalidOrderResponse("client order id")));
    let mut wrong = response_for(&r);
    wrong.time_in_force = "GTC".into();
    assert_eq!(r.check_response(&wrong), Err(BinanceRestError::InvalidOrderResponse("maker order semantics")));
}

#[test]
fn signed_queries_refuse_an_empty_secret() {
    assert_eq!(signed_tradfi_contract_body("", 1, 2), Err(SigningError::EmptySecret));
    assert_eq!(signed_open_orders_query(None, "", 1, 2), Err(SigningError::EmptySecret));
    let q = signed_open_orders_query(None, "s", 1, 2).unwrap();
    assert!(q.starts_with("recvWindow=2&signature="));
    assert!(q.ends_with("&timestamp=1"));
}

fn policy(allow_live_orders: bool) -> DeploymentPolicy {
    DeploymentPolicy {
        environment: BinanceEnvironment::Testnet,
        allow_live_orders,
        allow_production: false,
        credentials_loaded: true,
    }
}

#[test]
fn signed_calls_carry_their_endpoint_and_permission() {
    let cancel = cancel_order_call("BTCUSDT", "anchorbell-1").unwrap();
    assert_eq!(cancel.method, RestMethod::Delete);
    assert_eq!(cancel.path, "/fapi/v1/order");
    assert!(cancel.order_permission);
    assert_eq!(cancel.params.get("origClientOrderId"), Some(&"anchorbell-1".to_string()));
    assert_eq!(cancel.params.get("symbol"), Some(&"BTCUSDT".to_string()));
    let query = query_order_call("BTCUSDT", "anchorbell-1").unwrap();
    assert_eq!(query.method, RestMethod::Get);
    assert!(!query.order_permission);
    assert_eq!(query_order_call("btc-usdt", "x"), Err(BinanceRestError::InvalidOrderRequest("symbol")));
    assert_eq!(cancel_order_call("BTCUSDT", "bad id!"), Err(BinanceRestError::InvalidOrderRequest("client_order_id")));
    let all = cancel_all_open_orders_call("BTCUSDT").unwrap();
    assert_eq!(all.path, "/fapi/v1/allOpenOrders");
    assert!(all.order_permission);
    let risk = position_risk_call(None).unwrap();
    assert_eq!(risk.path, "/fapi/v2/positionRisk");
    assert_eq!(risk.params.len(), 0);
    assert_eq!(position_risk_call(Some("BTCUSDT")).unwrap().params.len(), 1);
    assert_eq!(position_risk_call(Some("")), Err(BinanceRestError::InvalidOrderRequest("symbol")));
    let maker = maker_order_call(&request()).unwrap();
    assert_eq!(maker.method, RestMethod::Post);
    assert_eq!(maker.params.get("timeInForce"), Some(&"GTX".to_string()));
    let mut bad = request();
    bad.price = "0".into();
    assert_eq!(maker_order_call(&bad), Err(BinanceRestError::InvalidOrderRequest("price")));
}

#[test]
fn prepared_calls_respect_the_deployment_policy() {
    let cancel = cancel_order_call("BTCUSDT", "anchorbell-1").unwrap();
    assert_eq!(
        prepare_signed(&policy(false), BinanceEnvironment::Testnet, cancel.clone(), "secret", 1, 5_000),
        Err(BinanceRestError::Policy(SafetyError::LiveOrdersNotAllowed))
    );
    assert_eq!(
        prepare_signed(&policy(true), BinanceEnvironment::Production, cancel.clone(), "secret", 1, 5_000),
        Err(BinanceRestError::Policy(SafetyError::EnvironmentMismatch))
    );
    assert_eq!(
        prepare_signed(&policy(true), BinanceEnvironment::Testnet, cancel.clone(), "", 1, 5_000),
        Err(BinanceRestError::Signing(SigningError::EmptySecret))
    );
    let wire = prepare_signed(&policy(true), BinanceEnvironment::Testnet, cancel, "secret", 1_700, 5_000).unwrap();
    assert!(!wire.query_in_body);
    assert!(wire.query.starts_with("origClientOrderId=anchorbell-1&recvWindow=5000&signature="));
    assert!(wire.query.ends_with("&symbol=BTCUSDT&timestamp=1700"));
    let read = query_order_call("BTCUSDT", "anchorbell-1").unwrap();
    assert!(prepare_signed(&policy(false), BinanceEnvironment::Testnet, read, "secret", 1, 5_000).is_ok());
    let post = maker_order_call(&request()).unwrap();
    assert!(prepare_signed(&policy(true), BinanceEnvironment::Testnet, post, "secret", 1, 5_000).unwrap().query_in_body);
}

#[test]
fn answers_are_checked_after_transport() {
    assert_eq!(
        send_failure(true, 0, "reset".into()),
        BinanceRestError::UnknownExecution { status: 0, message: "reset".into() }
    );
    assert_eq!(send_failure(false, 200, "reset".into()), BinanceRestError::Transport { message: "reset".into() });
    let response = response_for(&request());
    assert_eq!(check_order_identity(&response, "BTCUSDT", "anchorbell-1", "cancel identity"), Ok(()));
    assert_eq!(
        check_order_identity(&response, "ETHUSDT", "anchorbell-1", "cancel identity"),
        Err(BinanceRestError::InvalidOrderResponse("cancel identity"))
    );
    let ack = BinanceTradFiContractResponse { code: 200, msg: "success".into() };
    assert_eq!(check_exchange_code(ack.clone()), Ok(ack));
    assert_eq!(
        check_exchange_code(BinanceTradFiContractResponse { code: -1, msg: "no".into() }),
        Err(BinanceRestError::Exchange { code: -1, message: "no".into() })
    );
    assert_eq!(check_listen_key("abc".into()), Ok("abc".to_string()));
    assert_eq!(check_listen_key(String::new()), Err(BinanceRestError::InvalidOrderResponse("empty listen key")));
    assert_eq!(check_keepalive_key(""), Err(BinanceRestError::InvalidOrderRequest("listen_key")));
    assert_eq!(check_keepalive_key("abc"), Ok(()));
}
