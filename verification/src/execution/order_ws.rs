//! The order websocket's rules: what may be sent as an order, how a reply is
//! matched to its request, and what an accepted order reply must carry.
//!
//! Requests and replies are seen through the fields these rules read; the
//! socket itself, and the decoding of frames, live with the caller.
use crate::execution::safety::{DeploymentPolicy, SafetyError};
use crate::text::{owned, str_eq};
use vstd::prelude::*;

verus! {

#[derive(Debug, Clone, PartialEq, Eq)]
pub enum OrderTransportError {
    Policy(SafetyError),
    WebSocket(String),
    Network(String),
    Closed,
    UnknownExecution,
    NonTextResponse,
    ResponseDecode(String),
    CorrelationMismatch,
    NonMakerOrder,
    InvalidResponse(String),
    Exchange { code: i64, message: String },
}

/// What a JSON object holds under one key: nothing, a string, or a value of
/// another kind.
#[derive(Debug, Clone, PartialEq, Eq)]
pub enum JsonField {
    Missing,
    Text(String),
    Other,
}

/// The parameters of an order request, each read as a string when it is one.
#[derive(Debug, Clone, PartialEq, Eq)]
pub struct OrderParams {
    pub symbol: Option<String>,
    pub side: Option<String>,
    pub order_type: Option<String>,
    pub time_in_force: Option<String>,
    pub price: Option<String>,
    pub quantity: Option<String>,
    pub new_client_order_id: Option<String>,
}

/// An outgoing request: its `id` and `method` when they are strings, and its
/// `params` when they are an object.
#[derive(Debug, Clone, PartialEq, Eq)]
pub struct OrderRequest {
    pub id: Option<String>,
    pub method: Option<String>,
    pub params: Option<OrderParams>,
}

/// The `result` object of a reply.
#[derive(Debug, Clone, PartialEq, Eq)]
pub struct OrderResult {
    pub order_id: JsonField,
    pub symbol: JsonField,
    pub client_order_id: JsonField,
    pub status: JsonField,
}

/// A reply: its `id` when it is a string, `status` when it is an unsigned
/// integer, `error.code` and `error.msg` when they have those kinds, and
/// `result` when it is an object.
#[derive(Debug, Clone, PartialEq, Eq)]
pub struct OrderReply {
    pub id: Option<String>,
    pub status: Option<u64>,
    pub error_code: Option<i64>,
    pub error_message: Option<String>,
    pub result: Option<OrderResult>,
}

/// What the transport does with one reply to a request it sent.
#[derive(Debug, Clone, PartialEq, Eq)]
pub enum ReplyStep {
    /// The reply answers another request; keep waiting.
    Ignore,
    /// The reply completes the request.
    Accept,
    /// The request failed.
    Reject(OrderTransportError),
}

pub open spec fn text_is(value: Option<String>, expected: Seq<char>) -> bool {
    value matches Some(s) && s@ == expected
}

pub open spec fn nonempty(value: Option<String>) -> bool {
    value matches Some(s) && s@.len() > 0
}

pub open spec fn field_text(f: JsonField) -> Option<Seq<char>> {
    match f {
        JsonField::Text(s) => Some(s@),
        _ => None,
    }
}

pub open spec fn field_nonempty(f: JsonField) -> bool {
    f matches JsonField::Text(s) && s@.len() > 0
}

pub open spec fn is_order_place(request: OrderRequest) -> bool {
    text_is(request.method, "order.place"@)
}

/// A maker-only order: a `LIMIT` order that is good till crossing (`GTX`),
/// with a side of `BUY` or `SELL` and a non-empty symbol, side, price, quantity
/// and client order id.
pub open spec fn maker_payload(request: OrderRequest) -> bool {
    match request.params {
        Some(p) => {
            &&& text_is(p.order_type, "LIMIT"@)
            &&& text_is(p.time_in_force, "GTX"@)
            &&& nonempty(p.symbol)
            &&& nonempty(p.side)
            &&& nonempty(p.price)
            &&& nonempty(p.quantity)
            &&& nonempty(p.new_client_order_id)
            &&& (text_is(p.side, "BUY"@) || text_is(p.side, "SELL"@))
        },
        None => false,
    }
}

/// Why an order reply does not confirm the order requested, as the message
/// that reports it; `None` when it does.
pub open spec fn reply_failure(reply: OrderReply, symbol: Seq<char>, client_order_id: Seq<char>) -> Option<
    Seq<char>,
> {
    if reply.status != Some(200u64) {
        Some("order.place response status is not 200"@)
    } else {
        match reply.result {
            None => Some("order.place response has no result object"@),
            Some(r) => if r.order_id is Missing {
                Some("order.place response is missing orderId"@)
            } else if r.symbol is Missing {
                Some("order.place response is missing symbol"@)
            } else if r.client_order_id is Missing {
                Some("order.place response is missing clientOrderId"@)
            } else if r.status is Missing {
                Some("order.place response is missing status"@)
            } else if !field_nonempty(r.symbol) {
                Some("order.place response has an invalid symbol"@)
            } else if !field_nonempty(r.client_order_id) {
                Some("order.place response has an invalid clientOrderId"@)
            } else if !field_nonempty(r.status) {
                Some("order.place response has an invalid status"@)
            } else if field_text(r.symbol) != Some(symbol) || field_text(r.client_order_id) != Some(
                client_order_id,
            ) {
                Some("order.place response identity does not match the request"@)
            } else {
                None
            },
        }
    }
}

/// Why the policy keeps an order request from being sent, if it does.
pub open spec fn order_refusal(policy: DeploymentPolicy) -> Option<SafetyError> {
    match policy.refusal(policy.environment) {
        Some(e) => Some(e),
        None => if policy.allow_live_orders {
            None
        } else {
            Some(SafetyError::LiveOrdersNotAllowed)
        },
    }
}

/// Why a request may not be sent, if it may not: an order needs the policy's
/// leave and a maker-only payload, and every request needs a string id to
/// match its reply by.
pub open spec fn request_refusal(policy: DeploymentPolicy, request: OrderRequest) -> Option<
    OrderTransportError,
> {
    if is_order_place(request) && order_refusal(policy) is Some {
        Some(OrderTransportError::Policy(order_refusal(policy)->0))
    } else if is_order_place(request) && !maker_payload(request) {
        Some(OrderTransportError::NonMakerOrder)
    } else if request.id is None {
        Some(OrderTransportError::CorrelationMismatch)
    } else {
        None
    }
}

/// The symbol and client order id that an order request names.
pub open spec fn expected_identity(request: OrderRequest) -> Option<(Seq<char>, Seq<char>)> {
    match request.params {
        Some(p) => match (p.symbol, p.new_client_order_id) {
            (Some(s), Some(c)) => Some((s@, c@)),
            _ => None,
        },
        None => None,
    }
}

pub open spec fn rejected_as_invalid(step: ReplyStep, message: Seq<char>) -> bool {
    step matches ReplyStep::Reject(OrderTransportError::InvalidResponse(m)) && m@ == message
}

/// The exchange error that a failed reply reports: its code, or -1, and its
/// message, or a generic one.
pub open spec fn rejected_by_exchange(step: ReplyStep, reply: OrderReply) -> bool {
    step matches ReplyStep::Reject(OrderTransportError::Exchange { code, message }) && code == (
    match reply.error_code {
        Some(c) => c,
        None => -1i64,
    }) && message@ == (match reply.error_message {
        Some(m) => m@,
        None => "unknown exchange error"@,
    })
}

fn text_equals(value: &Option<String>, expected: &str) -> (r: bool)
    ensures
        r == text_is(*value, expected@),
{
    match value {
        Some(s) => str_eq(s.as_str(), expected),
        None => false,
    }
}

fn text_nonempty(value: &Option<String>) -> (r: bool)
    ensures
        r == nonempty(*value),
{
    match value {
        Some(s) => !s.as_str().is_empty(),
        None => false,
    }
}

fn field_is_nonempty_text(f: &JsonField) -> (r: bool)
    ensures
        r == field_nonempty(*f),
{
    match f {
        JsonField::Text(s) => !s.as_str().is_empty(),
        _ => false,
    }
}

fn field_equals(f: &JsonField, expected: &str) -> (r: bool)
    ensures
        r == (field_text(*f) == Some(expected@)),
{
    match f {
        JsonField::Text(s) => str_eq(s.as_str(), expected),
        _ => false,
    }
}

fn field_missing(f: &JsonField) -> (r: bool)
    ensures
        r == (*f is Missing),
{
    match f {
        JsonField::Missing => true,
        _ => false,
    }
}

fn invalid(message: &str) -> (r: OrderTransportError)
    ensures
        r matches OrderTransportError::InvalidResponse(m) && m@ == message@,
{
    OrderTransportError::InvalidResponse(owned(message))
}

/// Accepts only a maker-only order payload.
pub fn validate_maker_order_payload(payload: &OrderRequest) -> (r: Result<(), OrderTransportError>)
    ensures
        r is Ok <==> maker_payload(*payload),
        r is Err ==> r == Err::<(), OrderTransportError>(OrderTransportError::NonMakerOrder),
{
    let p = match &payload.params {
        Some(p) => p,
        None => {
            return Err(OrderTransportError::NonMakerOrder);
        },
    };
    if !text_equals(&p.order_type, "LIMIT") || !text_equals(&p.time_in_force, "GTX") || !text_nonempty(
        &p.symbol,
    ) || !text_nonempty(&p.side) || !text_nonempty(&p.price) || !text_nonempty(&p.quantity)
        || !text_nonempty(&p.new_client_order_id) || !(text_equals(&p.side, "BUY") || text_equals(
        &p.side,
        "SELL",
    )) {
        return Err(OrderTransportError::NonMakerOrder);
    }
    Ok(())
}

/// Accepts an order reply only with status 200 and a result that names an
/// order id, a non-empty status, and the symbol and client order id that
/// were requested.
pub fn validate_order_place_response(
    response: &OrderReply,
    expected_symbol: &str,
    expected_client_order_id: &str,
) -> (r: Result<(), OrderTransportError>)
    ensures
        match reply_failure(*response, expected_symbol@, expected_client_order_id@) {
            Some(m) => r matches Err(OrderTransportError::InvalidResponse(s)) && s@ == m,
            None => r is Ok,
        },
{
    let status_ok = match response.status {
        Some(s) => s == 200,
        None => false,
    };
    if !status_ok {
        return Err(invalid("order.place response status is not 200"));
    }
    let result = match &response.result {
        Some(result) => result,
        None => {
            return Err(invalid("order.place response has no result object"));
        },
    };
    if field_missing(&result.order_id) {
        return Err(invalid("order.place response is missing orderId"));
    }
    if field_missing(&result.symbol) {
        return Err(invalid("order.place response is missing symbol"));
    }
    if field_missing(&result.client_order_id) {
        return Err(invalid("order.place response is missing clientOrderId"));
    }
    if field_missing(&result.status) {
        return Err(invalid("order.place response is missing status"));
    }
    if !field_is_nonempty_text(&result.symbol) {
        return Err(invalid("order.place response has an invalid symbol"));
    }
    if !field_is_nonempty_text(&result.client_order_id) {
        return Err(invalid("order.place response has an invalid clientOrderId"));
    }
    if !field_is_nonempty_text(&result.status) {
        return Err(invalid("order.place response has an invalid status"));
    }
    if !field_equals(&result.symbol, expected_symbol) || !field_equals(
        &result.client_order_id,
        expected_client_order_id,
    ) {
        return Err(invalid("order.place response identity does not match the request"));
    }
    Ok(())
}

/// Checks a request before it is sent and returns the id its reply must
/// carry.
pub fn admit_request(policy: &DeploymentPolicy, request: &OrderRequest) -> (r: Result<
    String,
    OrderTransportError,
>)
    ensures
        match request_refusal(*policy, *request) {
            Some(e) => r == Err::<String, OrderTransportError>(e),
            None => r matches Ok(id) && request.id matches Some(s) && id@ == s@,
        },
{
    if text_equals(&request.method, "order.place") {
        match policy.validate_for_order(policy.environment) {
            Err(e) => {
                return Err(OrderTransportError::Policy(e));
            },
            Ok(()) => {},
        }
        match validate_maker_order_payload(request) {
            Err(e) => {
                return Err(e);
            },
            Ok(()) => {},
        }
    }
    match &request.id {
        Some(id) => Ok(owned(id.as_str())),
        None => Err(OrderTransportError::CorrelationMismatch),
    }
}

/// Decides what one decoded reply means for the request with `request_id`:
/// a reply to another request is ignored; otherwise it needs a numeric
/// status, a status of 400 or more is the exchange's error, anything but 200
/// is invalid, and an order reply must confirm the order requested.
pub fn classify_reply(request: &OrderRequest, request_id: &str, reply: &OrderReply) -> (r: ReplyStep)
    ensures
        !text_is(reply.id, request_id@) ==> r is Ignore,
        text_is(reply.id, request_id@) && reply.status is None ==> rejected_as_invalid(
            r,
            "response is missing numeric status"@,
        ),
        text_is(reply.id, request_id@) && (reply.status matches Some(s) && s >= 400)
            ==> rejected_by_exchange(r, *reply),
        text_is(reply.id, request_id@) && (reply.status matches Some(s) && s < 400 && s != 200)
            ==> rejected_as_invalid(r, "successful response status is not 200"@),
        text_is(reply.id, request_id@) && reply.status == Some(200u64) ==> if is_order_place(
            *request,
        ) {
            match expected_identity(*request) {
                None => r == ReplyStep::Reject(OrderTransportError::NonMakerOrder),
                Some(identity) => match reply_failure(*reply, identity.0, identity.1) {
                    Some(m) => rejected_as_invalid(r, m),
                    None => r is Accept,
                },
            }
        } else {
            r is Accept
        },
{
    if !text_equals(&reply.id, request_id) {
        return ReplyStep::Ignore;
    }
    let status = match reply.status {
        Some(s) => s,
        None => {
            return ReplyStep::Reject(invalid("response is missing numeric status"));
        },
    };
    if status >= 400 {
        let code = match reply.error_code {
            Some(c) => c,
            None => -1,
        };
        let message = match &reply.error_message {
            Some(m) => owned(m.as_str()),
            None => owned("unknown exchange error"),
        };
        return ReplyStep::Reject(OrderTransportError::Exchange { code, message });
    }
    if status != 200 {
        return ReplyStep::Reject(invalid("successful response status is not 200"));
    }
    if text_equals(&request.method, "order.place") {
        let params = match &request.params {
            Some(p) => p,
            None => {
                return ReplyStep::Reject(OrderTransportError::NonMakerOrder);
            },
        };
        let symbol = match &params.symbol {
            Some(s) => s,
            None => {
                return ReplyStep::Reject(OrderTransportError::NonMakerOrder);
            },
        };
        let client_order_id = match &params.new_client_order_id {
            Some(c) => c,
            None => {
                return ReplyStep::Reject(OrderTransportError::NonMakerOrder);
            },
        };
        match validate_order_place_response(reply, symbol.as_str(), client_order_id.as_str()) {
            Err(e) => {
                return ReplyStep::Reject(e);
            },
            Ok(()) => {},
        }
    }
    ReplyStep::Accept
}

/// Only a maker-only order is ever sent: an admitted order request has a
/// `LIMIT` + `GTX` payload, and the policy allowed live orders.
pub proof fn law_only_maker_orders_are_sent(policy: DeploymentPolicy, request: OrderRequest)
    requires
        is_order_place(request),
        request_refusal(policy, request) is None,
    ensures
        maker_payload(request),
        policy.allow_live_orders,
        policy.refusal(policy.environment) is None,
{
}

/// An accepted order reply names exactly the symbol and client order id
/// that the request named.
pub proof fn law_accepted_order_reply_matches_request(
    request: OrderRequest,
    reply: OrderReply,
    symbol: Seq<char>,
    client_order_id: Seq<char>,
)
    requires
        expected_identity(request) == Some((symbol, client_order_id)),
        reply_failure(reply, symbol, client_order_id) is None,
    ensures
        reply.status == Some(200u64),
        reply.result matches Some(r) && field_text(r.symbol) == Some(symbol) && field_text(
            r.client_order_id,
        ) == Some(client_order_id) && !(r.order_id is Missing),
{
}

} // verus!
