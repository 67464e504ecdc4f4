use anchorbell_engine::execution::environment::BinanceEnvironment;
use anchorbell_engine::execution::order_ws::{
    admit_request, classify_reply, validate_maker_order_payload, validate_order_place_response, JsonField,
    OrderParams, OrderReply, OrderRequest, OrderResult, OrderTransportError, ReplyStep,
};
use anchorbell_engine::execution::safety::{DeploymentPolicy, SafetyError};

fn text(s: &str) -> Option<String> {
    Some(s.to_string())
}

fn maker_params() -> OrderParams {
    OrderParams {
        symbol: text("ABCUSDT"),
        side: text("BUY"),
        order_type: text("LIMIT"),
        time_in_force: text("GTX"),
        price: text("10"),
        quantity: text("1"),
        new_client_order_id: text("anchorbell-1"),
    }
}

fn order_request(params: OrderParams) -> OrderRequest {
    OrderRequest { id: text("order-1"), method: text("order.place"), params: Some(params) }
}

fn field(s: &str) -> JsonField {
    JsonField::Text(s.to_string())
}

fn reply(result: Option<OrderResult>) -> OrderReply {
    OrderReply { id: text("order-1"), status: Some(200), error_code: None, error_message: None, result }
}

fn good_result() -> OrderResult {
    OrderResult {
        order_id: JsonField::Other,
        symbol: field("ABCUSDT"),
        client_order_id: field("anchorbell-1"),
        status: field("NEW"),
    }
}

fn live_policy() -> DeploymentPolicy {
    DeploymentPolicy {
        environment: BinanceEnvironment::Testnet,
        allow_live_orders: true,
        allow_production: false,
        credentials_loaded: true,
    }
}

fn invalid_message(step: &ReplyStep) -> Option<String> {
    match step {
        ReplyStep::Reject(OrderTransportError::InvalidResponse(m)) => Some(m.clone()),
        _ => None,
    }
}

#[test]
fn requires_a_request_id_at_transport_boundary() {
    let request = OrderRequest { id: None, method: text("order.place"), params: None };
    assert!(request.id.is_none());
    let query = OrderRequest { id: None, method: text("account.status"), params: None };
    assert_eq!(admit_request(&live_policy(), &query), Err(OrderTransportError::CorrelationMismatch));
}

#[test]
fn rejects_non_maker_order_payload_before_network_connect() {
    let mut params = maker_params();
    params.time_in_force = text("GTC");
    assert!(matches!(
        validate_maker_order_payload(&order_request(params)),
        Err(OrderTransportError::NonMakerOrder)
    ));
}

#[test]
fn rejects_missing_order_semantics_before_network_connect() {
    let params = OrderParams {
        symbol: None,
        side: None,
        order_type: None,
        time_in_force: None,
        price: None,
        quantity: None,
        new_client_order_id: None,
    };
    assert!(matches!(
        validate_maker_order_payload(&order_request(params)),
        Err(OrderTransportError::NonMakerOrder)
    ));
}

#[test]
fn accepts_only_identity_complete_order_place_response() {
    let response = reply(Some(good_result()));
    assert!(validate_order_place_response(&response, "ABCUSDT", "anchorbell-1").is_ok());
}

#[test]
fn rejects_order_place_response_without_exchange_identity() {
    let response = reply(Some(OrderResult {
        order_id: JsonField::Missing,
        symbol: JsonField::Missing,
        client_order_id: JsonField::Missing,
        status: field("NEW"),
    }));
    assert!(matches!(
        validate_order_place_response(&response, "ABCUSDT", "anchorbell-1"),
        Err(OrderTransportError::InvalidResponse(_))
    ));
}

#[test]
fn rejects_order_place_response_for_wrong_request_identity() {
    let mut result = good_result();
    result.symbol = field("OTHERUSDT");
    result.client_order_id = field("other-order");
    assert!(matches!(
        validate_order_place_response(&reply(Some(result)), "ABCUSDT", "anchorbell-1"),
        Err(OrderTransportError::InvalidResponse(_))
    ));
}

#[test]
fn environment_mismatch_is_rejected_before_network_connect() {
    let policy = DeploymentPolicy {
        environment: BinanceEnvironment::Testnet,
        allow_live_orders: false,
        allow_production: false,
        credentials_loaded: true,
    };
    assert_eq!(
        policy.validate_for(BinanceEnvironment::Production),
        Err(SafetyError::EnvironmentMismatch)
    );
}

#[test]
fn order_reply_failures_name_the_first_problem() {
    let check = |r: OrderReply| match validate_order_place_response(&r, "ABCUSDT", "anchorbell-1") {
        Err(OrderTransportError::InvalidResponse(m)) => m,
        other => panic!("unexpected {other:?}"),
    };
    let mut r = reply(Some(good_result()));
    r.status = Some(201);
    assert_eq!(check(r), "order.place response status is not 200");
    assert_eq!(check(reply(None)), "order.place response has no result object");
    let mut res = good_result();
    res.order_id = JsonField::Missing;
    assert_eq!(check(reply(Some(res))), "order.place response is missing orderId");
    let mut res = good_result();
    res.status = JsonField::Missing;
    assert_eq!(check(reply(Some(res))), "order.place response is missing status");
    let mut res = good_result();
    res.symbol = JsonField::Other;
    assert_eq!(check(reply(Some(res))), "order.place response has an invalid symbol");
    let mut res = good_result();
    res.status = field("");
    assert_eq!(check(reply(Some(res))), "order.place response has an invalid status");
    let mut res = good_result();
    res.client_order_id = field("anchorbell-2");
    assert_eq!(check(reply(Some(res))), "order.place response identity does not match the request");
}

#[test]
fn orders_need_policy_leave_and_a_maker_payload() {
    let request = order_request(maker_params());
    assert_eq!(admit_request(&live_policy(), &request), Ok("order-1".to_string()));
    let mut no_live = live_policy();
    no_live.allow_live_orders = false;
    assert_eq!(
        admit_request(&no_live, &request),
        Err(OrderTransportError::Policy(SafetyError::LiveOrdersNotAllowed))
    );
    let mut no_credentials = no_live;
    no_credentials.credentials_loaded = false;
    assert_eq!(
        admit_request(&no_credentials, &request),
        Err(OrderTransportError::Policy(SafetyError::CredentialsMissing))
    );
    let mut params = maker_params();
    params.side = text("HOLD");
    assert_eq!(
        admit_request(&live_policy(), &order_request(params)),
        Err(OrderTransportError::NonMakerOrder)
    );
    // Requests other than orders pass whatever the policy says, given an id.
    let status = OrderRequest { id: text("q-1"), method: text("account.status"), params: None };
    assert_eq!(admit_request(&no_credentials, &status), Ok("q-1".to_string()));
}

#[test]
fn replies_are_matched_classified_and_checked() {
    let request = order_request(maker_params());
    let mut other = reply(Some(good_result()));
    other.id = text("order-2");
    assert_eq!(classify_reply(&request, "order-1", &other), ReplyStep::Ignore);
    assert_eq!(classify_reply(&request, "order-1", &reply(Some(good_result()))), ReplyStep::Accept);

    let mut missing = reply(None);
    missing.status = None;
    assert_eq!(
        invalid_message(&classify_reply(&request, "order-1", &missing)).as_deref(),
        Some("response is missing numeric status")
    );
    let mut failed = reply(None);
    failed.status = Some(400);
    failed.error_code = Some(-2010);
    failed.error_message = text("Order would immediately match and take.");
    assert_eq!(
        classify_reply(&request, "order-1", &failed),
        ReplyStep::Reject(OrderTransportError::Exchange {
            code: -2010,
            message: "Order would immediately match and take.".to_string()
        })
    );
    failed.error_code = None;
    failed.error_message = None;
    assert_eq!(
        classify_reply(&request, "order-1", &failed),
        ReplyStep::Reject(OrderTransportError::Exchange { code: -1, message: "unknown exchange error".to_string() })
    );
    let mut odd = reply(None);
    odd.status = Some(204);
    assert_eq!(
        invalid_message(&classify_reply(&request, "order-1", &odd)).as_deref(),
        Some("successful response status is not 200")
    );
    assert_eq!(
        invalid_message(&classify_reply(&request, "order-1", &reply(None))).as_deref(),
        Some("order.place response has no result object")
    );
    let status = OrderRequest { id: text("q-1"), method: text("account.status"), params: None };
    let mut plain = reply(None);
    plain.id = text("q-1");
    assert_eq!(classify_reply(&status, "q-1", &plain), ReplyStep::Accept);
}
