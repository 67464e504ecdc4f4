//! The REST side of the Binance order contract that does not need a
//! socket: order request checks, the parameters a maker order is sent
//! with, signed queries, the identity an order response must carry, and how
//! an HTTP failure is classified.
use crate::execution::intent::Side;
use crate::execution::environment::BinanceEnvironment;
use crate::execution::safety::{DeploymentPolicy, SafetyError};
use crate::execution::signing::{
    canonical_query, param_view, query_text, sign_query, signature_of, SigningError,
};
use crate::keyed::SortedMap;
use crate::text::{dec_chars, owned, str_eq, u64_to_dec, utf8};
use vstd::prelude::*;
use vstd::string::*;

verus! {

#[derive(Debug, Clone, PartialEq, Eq)]
pub enum BinanceRestError {
    Policy(SafetyError),
    InvalidProxy,
    ClientBuild,
    Transport { message: String },
    HttpStatus { status: u16 },
    Decode,
    Signing(SigningError),
    Exchange { code: i64, message: String },
    UnknownExecution { status: u16, message: String },
    InvalidOrderRequest(&'static str),
    InvalidOrderResponse(&'static str),
}

#[derive(Debug, Clone, PartialEq, Eq)]
pub struct BinanceOpenOrder {
    pub symbol: String,
    pub client_order_id: String,
    pub status: String,
    pub executed_quantity: String,
    pub original_quantity: String,
    pub price: String,
    pub average_price: String,
    pub side: String,
    pub time_in_force: String,
    pub order_type: String,
    pub reduce_only: bool,
    pub update_time_ms: u64,
    pub order_id: i64,
}

#[derive(Debug, Clone, PartialEq, Eq)]
pub struct BinanceOrderResponse {
    pub order_id: i64,
    pub symbol: String,
    pub status: String,
    pub client_order_id: String,
    pub side: String,
    pub time_in_force: String,
    pub order_type: String,
    pub price: String,
    pub original_quantity: String,
    pub executed_quantity: String,
    pub average_price: String,
    pub update_time_ms: u64,
    pub reduce_only: bool,
}

#[derive(Debug, Clone, PartialEq, Eq)]
pub struct BinanceMakerOrderRequest {
    pub symbol: String,
    pub side: Side,
    pub price: String,
    pub quantity: String,
    pub client_order_id: String,
    pub reduce_only: bool,
}

#[derive(Debug, Clone, PartialEq, Eq)]
pub struct BinancePositionRisk {
    pub symbol: String,
    pub position_amount: String,
    pub entry_price: String,
    pub mark_price: String,
    pub unrealized_profit: String,
    pub position_side: String,
    pub update_time_ms: u64,
}

#[derive(Debug, Clone, PartialEq, Eq)]
pub struct BinanceAccountSnapshot {
    pub observed_at_ms: u64,
    pub open_orders: Vec<BinanceOpenOrder>,
    pub positions: Vec<BinancePositionRisk>,
}

#[derive(Debug, Clone, PartialEq, Eq)]
pub struct BinanceTradFiContractResponse {
    pub code: i64,
    pub msg: String,
}

pub open spec fn is_alnum(b: u8) -> bool {
    (48 <= b <= 57) || (65 <= b <= 90) || (97 <= b <= 122)
}

/// A symbol is non-empty ASCII letters and digits.
pub open spec fn symbol_spec(v: Seq<char>) -> bool {
    utf8(v).len() > 0 && forall|i: int| 0 <= i < utf8(v).len() ==> is_alnum(#[trigger] utf8(v)[i])
}

pub open spec fn count_byte(b: Seq<u8>, x: u8) -> nat
    decreases b.len(),
{
    if b.len() == 0 {
        0
    } else {
        count_byte(b.drop_last(), x) + if b.last() == x { 1nat } else { 0nat }
    }
}

/// A positive decimal on the wire: digits and at most one `.`, with at
/// least one non-zero digit.
pub open spec fn wire_decimal_spec(v: Seq<char>) -> bool {
    let b = utf8(v);
    &&& b.len() > 0
    &&& forall|i: int| 0 <= i < b.len() ==> (48 <= #[trigger] b[i] <= 57 || b[i] == 46)
    &&& count_byte(b, 46) <= 1
    &&& exists|i: int| 0 <= i < b.len() && 49 <= #[trigger] b[i] <= 57
}

pub open spec fn client_id_byte(b: u8) -> bool {
    is_alnum(b) || b == 46 || b == 95 || b == 58 || b == 45
}

/// A client order id is 1 to 36 bytes of letters, digits and `._:-`.
pub open spec fn client_order_id_spec(v: Seq<char>) -> bool {
    let b = utf8(v);
    b.len() > 0 && b.len() <= 36 && forall|i: int| 0 <= i < b.len() ==> client_id_byte(#[trigger] b[i])
}

pub fn valid_symbol(value: &str) -> (r: bool)
    ensures
        r == symbol_spec(value@),
{
    let b = value.as_bytes();
    if b.len() == 0 {
        return false;
    }
    let mut i: usize = 0;
    while i < b.len()
        invariant
            i <= b@.len(),
            b@ == utf8(value@),
            forall|j: int| 0 <= j < i ==> is_alnum(#[trigger] b@[j]),
        decreases b@.len() - i,
    {
        let c = b[i];
        if !((c >= 48 && c <= 57) || (c >= 65 && c <= 90) || (c >= 97 && c <= 122)) {
            return false;
        }
        i = i + 1;
    }
    true
}

pub fn valid_positive_decimal(value: &str) -> (r: bool)
    ensures
        r == wire_decimal_spec(value@),
{
    let b = value.as_bytes();
    if b.len() == 0 {
        return false;
    }
    let mut dots: u64 = 0;
    let mut nonzero = false;
    let mut i: usize = 0;
    while i < b.len()
        invariant
            i <= b@.len(),
            b@ == utf8(value@),
            forall|j: int| 0 <= j < i ==> (48 <= #[trigger] b@[j] <= 57 || b@[j] == 46),
            dots == count_byte(b@.subrange(0, i as int), 46),
            dots <= i,
            nonzero == exists|j: int| 0 <= j < i && 49 <= #[trigger] b@[j] <= 57,
        decreases b@.len() - i,
    {
        let c = b[i];
        proof {
            assert(b@.subrange(0, i + 1).drop_last() =~= b@.subrange(0, i as int));
        }
        if c >= 48 && c <= 57 {
            if c != 48 {
                nonzero = true;
            }
        } else if c == 46 {
            dots = dots + 1;
        } else {
            return false;
        }
        i = i + 1;
    }
    assert(b@.subrange(0, b@.len() as int) =~= b@);
    dots <= 1 && nonzero
}

pub fn valid_client_order_id(value: &str) -> (r: bool)
    ensures
        r == client_order_id_spec(value@),
{
    let b = value.as_bytes();
    if b.len() == 0 || b.len() > 36 {
        return false;
    }
    let mut i: usize = 0;
    while i < b.len()
        invariant
            i <= b@.len(),
            b@ == utf8(value@),
            forall|j: int| 0 <= j < i ==> client_id_byte(#[trigger] b@[j]),
        decreases b@.len() - i,
    {
        let c = b[i];
        if !((c >= 48 && c <= 57) || (c >= 65 && c <= 90) || (c >= 97 && c <= 122) || c == 46 || c == 95 || c == 58
            || c == 45) {
            return false;
        }
        i = i + 1;
    }
    true
}

impl BinanceMakerOrderRequest {
    /// The field a request is refused for, checked in order.
    pub open spec fn validate_outcome(&self) -> Option<Seq<char>> {
        if !symbol_spec(self.symbol@) {
            Some("symbol"@)
        } else if !wire_decimal_spec(self.price@) {
            Some("price"@)
        } else if !wire_decimal_spec(self.quantity@) {
            Some("quantity"@)
        } else if !client_order_id_spec(self.client_order_id@) {
            Some("client_order_id"@)
        } else {
            None
        }
    }

    /// Checks the symbol, price, quantity and client order id, in that
    /// order, before anything reaches the transport.
    pub fn validate(&self) -> (r: Result<(), BinanceRestError>)
        ensures
            !symbol_spec(self.symbol@) ==> (r matches Err(BinanceRestError::InvalidOrderRequest(f)) && f@ == "symbol"@),
            symbol_spec(self.symbol@) && !wire_decimal_spec(self.price@) ==> (r matches Err(
                BinanceRestError::InvalidOrderRequest(f),
            ) && f@ == "price"@),
            symbol_spec(self.symbol@) && wire_decimal_spec(self.price@) && !wire_decimal_spec(self.quantity@) ==> (r matches Err(
                BinanceRestError::InvalidOrderRequest(f),
            ) && f@ == "quantity"@),
            symbol_spec(self.symbol@) && wire_decimal_spec(self.price@) && wire_decimal_spec(self.quantity@)
                && !client_order_id_spec(self.client_order_id@) ==> (r matches Err(
                BinanceRestError::InvalidOrderRequest(f),
            ) && f@ == "client_order_id"@),
            r is Ok <==> symbol_spec(self.symbol@) && wire_decimal_spec(self.price@) && wire_decimal_spec(self.quantity@)
                && client_order_id_spec(self.client_order_id@),
    {
        if !valid_symbol(self.symbol.as_str()) {
            return Err(BinanceRestError::InvalidOrderRequest("symbol"));
        }
        if !valid_positive_decimal(self.price.as_str()) {
            return Err(BinanceRestError::InvalidOrderRequest("price"));
        }
        if !valid_positive_decimal(self.quantity.as_str()) {
            return Err(BinanceRestError::InvalidOrderRequest("quantity"));
        }
        if !valid_client_order_id(self.client_order_id.as_str()) {
            return Err(BinanceRestError::InvalidOrderRequest("client_order_id"));
        }
        Ok(())
    }

    /// The wire text of the order side.
    pub open spec fn side_text(side: Side) -> Seq<char> {
        match side {
            Side::Buy => "BUY"@,
            Side::Sell => "SELL"@,
        }
    }

    /// The parameters a passive maker order is sent with: a post-only (GTX)
    /// limit order with a full result, reduce-only when asked.
    pub open spec fn params_spec(&self) -> Map<Seq<u8>, Seq<char>> {
        let base = Map::<Seq<u8>, Seq<char>>::empty().insert(utf8("newClientOrderId"@), self.client_order_id@).insert(
            utf8("price"@),
            self.price@,
        ).insert(utf8("quantity"@), self.quantity@).insert(utf8("side"@), Self::side_text(self.side)).insert(
            utf8("symbol"@),
            self.symbol@,
        ).insert(utf8("timeInForce"@), "GTX"@).insert(utf8("type"@), "LIMIT"@).insert(
            utf8("newOrderRespType"@),
            "RESULT"@,
        );
        if self.reduce_only {
            base.insert(utf8("reduceOnly"@), "true"@)
        } else {
            base
        }
    }

    pub fn order_params(&self) -> (r: SortedMap<String>)
        ensures
            r.wf(),
            param_view(r) == self.params_spec(),
    {
        let mut params: SortedMap<String> = SortedMap::new();
        let ghost v = param_view(params);
        assert(v =~= Map::<Seq<u8>, Seq<char>>::empty());
        params.insert(owned("newClientOrderId"), owned(self.client_order_id.as_str()));
        params.insert(owned("price"), owned(self.price.as_str()));
        params.insert(owned("quantity"), owned(self.quantity.as_str()));
        let side = match self.side {
            Side::Buy => "BUY",
            Side::Sell => "SELL",
        };
        params.insert(owned("side"), owned(side));
        params.insert(owned("symbol"), owned(self.symbol.as_str()));
        params.insert(owned("timeInForce"), owned("GTX"));
        params.insert(owned("type"), owned("LIMIT"));
        params.insert(owned("newOrderRespType"), owned("RESULT"));
        if self.reduce_only {
            params.insert(owned("reduceOnly"), owned("true"));
        }
        assert(param_view(params) =~= self.params_spec());
        params
    }

    /// An order response must be for this request: same symbol and client
    /// order id, and the maker semantics it was sent with.
    pub fn check_response(&self, response: &BinanceOrderResponse) -> (r: Result<(), BinanceRestError>)
        ensures
            response.symbol@ != self.symbol@ ==> (r matches Err(BinanceRestError::InvalidOrderResponse(f)) && f@
                == "symbol"@),
            response.symbol@ == self.symbol@ && response.client_order_id@ != self.client_order_id@ ==> (r matches Err(
                BinanceRestError::InvalidOrderResponse(f),
            ) && f@ == "client order id"@),
            response.symbol@ == self.symbol@ && response.client_order_id@ == self.client_order_id@ && !(response.side@
                == Self::side_text(self.side) && response.time_in_force@ == "GTX"@ && response.order_type@ == "LIMIT"@
                && response.reduce_only == self.reduce_only) ==> (r matches Err(BinanceRestError::InvalidOrderResponse(f))
                && f@ == "maker order semantics"@),
            r is Ok <==> response.symbol@ == self.symbol@ && response.client_order_id@ == self.client_order_id@
                && response.side@ == Self::side_text(self.side) && response.time_in_force@ == "GTX"@
                && response.order_type@ == "LIMIT"@ && response.reduce_only == self.reduce_only,
    {
        if !str_eq(response.symbol.as_str(), self.symbol.as_str()) {
            return Err(BinanceRestError::InvalidOrderResponse("symbol"));
        }
        if !str_eq(response.client_order_id.as_str(), self.client_order_id.as_str()) {
            return Err(BinanceRestError::InvalidOrderResponse("client order id"));
        }
        let side = match self.side {
            Side::Buy => "BUY",
            Side::Sell => "SELL",
        };
        if !str_eq(response.side.as_str(), side) || !str_eq(response.time_in_force.as_str(), "GTX") || !str_eq(
            response.order_type.as_str(),
            "LIMIT",
        ) || response.reduce_only != self.reduce_only {
            return Err(BinanceRestError::InvalidOrderResponse("maker order semantics"));
        }
        Ok(())
    }
}

/// What `signed_rest_query` returns: the parameters with the timestamp,
/// receive window and their signature, as a canonical query.
pub open spec fn signed_query_of(params: Map<Seq<u8>, Seq<char>>, secret: Seq<char>, timestamp_ms: u64, recv_window_ms: u64, r: Seq<char>) -> bool {
    exists|mid: SortedMap<String>, fin: SortedMap<String>|
        {
            &&& #[trigger] mid.wf()
            &&& #[trigger] fin.wf()
            &&& param_view(mid) == params.insert(utf8("timestamp"@), dec_chars(timestamp_ms as nat)).insert(
                utf8("recvWindow"@),
                dec_chars(recv_window_ms as nat),
            )
            &&& param_view(fin) == param_view(mid).insert(utf8("signature"@), signature_of(secret, query_text(mid.entries())))
            &&& r == query_text(fin.entries())
        }
}

/// Signs the parameters with a timestamp and receive window; the result is
/// the canonical query including the signature.
pub fn signed_rest_query(params: SortedMap<String>, secret: &str, timestamp_ms: u64, recv_window_ms: u64) -> (r: Result<String, SigningError>)
    requires
        params.wf(),
    ensures
        secret@.len() == 0 ==> r == Err::<String, SigningError>(SigningError::EmptySecret),
        secret@.len() > 0 ==> (r matches Ok(q) && signed_query_of(param_view(params), secret@, timestamp_ms, recv_window_ms, q@)),
{
    let mut params = params;
    let ghost v0 = param_view(params);
    params.insert(owned("timestamp"), u64_to_dec(timestamp_ms));
    let ghost v1 = param_view(params);
    params.insert(owned("recvWindow"), u64_to_dec(recv_window_ms));
    proof {
        assert(v1 =~= v0.insert(utf8("timestamp"@), dec_chars(timestamp_ms as nat)));
        assert(param_view(params) =~= v1.insert(utf8("recvWindow"@), dec_chars(recv_window_ms as nat)));
    }
    let ghost mid = params;
    let signature = match sign_query(&params, secret) {
        Ok(s) => s,
        Err(e) => {
            return Err(e);
        },
    };
    let ghost sig = signature@;
    params.insert(owned("signature"), signature);
    proof {
        assert(param_view(params) =~= param_view(mid).insert(utf8("signature"@), sig));
    }
    let q = canonical_query(&params);
    proof {
        assert(signed_query_of(v0, secret@, timestamp_ms, recv_window_ms, q@));
    }
    Ok(q)
}

/// The signed body of a TradFi contract agreement: no order fields at all.
pub fn signed_tradfi_contract_body(secret: &str, timestamp_ms: u64, recv_window_ms: u64) -> (r: Result<String, SigningError>)
    ensures
        secret@.len() == 0 ==> r == Err::<String, SigningError>(SigningError::EmptySecret),
        secret@.len() > 0 ==> (r matches Ok(q) && signed_query_of(Map::empty(), secret@, timestamp_ms, recv_window_ms, q@)),
{
    let params: SortedMap<String> = SortedMap::new();
    assert(param_view(params) =~= Map::<Seq<u8>, Seq<char>>::empty());
    signed_rest_query(params, secret, timestamp_ms, recv_window_ms)
}

/// The signed query for open orders, scoped to a symbol when one is given.
pub fn signed_open_orders_query(symbol: Option<&str>, secret: &str, timestamp_ms: u64, recv_window_ms: u64) -> (r: Result<String, SigningError>)
    ensures
        secret@.len() == 0 ==> r == Err::<String, SigningError>(SigningError::EmptySecret),
        secret@.len() > 0 ==> (r matches Ok(q) && signed_query_of(
            match symbol {
                Some(s) => Map::<Seq<u8>, Seq<char>>::empty().insert(utf8("symbol"@), s@),
                None => Map::<Seq<u8>, Seq<char>>::empty(),
            },
            secret@,
            timestamp_ms,
            recv_window_ms,
            q@,
        )),
{
    let mut params: SortedMap<String> = SortedMap::new();
    assert(param_view(params) =~= Map::<Seq<u8>, Seq<char>>::empty());
    match symbol {
        Some(s) => {
            params.insert(owned("symbol"), owned(s));
            assert(param_view(params) =~= Map::<Seq<u8>, Seq<char>>::empty().insert(utf8("symbol"@), s@));
        },
        None => {},
    }
    signed_rest_query(params, secret, timestamp_ms, recv_window_ms)
}

/// Classifies a failed HTTP exchange. A 503 leaves the execution unknown,
/// to be reconciled before any retry; otherwise a decoded exchange error is
/// reported as such, and anything else by its status. The message is the
/// decoded one, or the body text.
pub fn exchange_error(status: u16, decoded: Option<BinanceTradFiContractResponse>, body_text: String) -> (r: BinanceRestError)
    ensures
        status == 503 ==> (r matches BinanceRestError::UnknownExecution { status: s, message } && s == 503 && message@ == (
        match decoded {
            Some(d) => d.msg@,
            None => body_text@,
        })),
        status != 503 ==> match decoded {
            Some(d) => r matches BinanceRestError::Exchange { code, message } && code == d.code && message@ == d.msg@,
            None => r == BinanceRestError::HttpStatus { status },
        },
{
    if status == 503 {
        let message = match &decoded {
            Some(d) => owned(d.msg.as_str()),
            None => body_text,
        };
        return BinanceRestError::UnknownExecution { status, message };
    }
    match decoded {
        Some(d) => BinanceRestError::Exchange { code: d.code, message: d.msg },
        None => BinanceRestError::HttpStatus { status },
    }
}


/// The HTTP method of a REST call.
#[derive(Debug, Clone, Copy, PartialEq, Eq, Structural)]
pub enum RestMethod {
    Get,
    Post,
    Put,
    Delete,
}

/// A signed REST call before it is signed: where it goes, with which
/// parameters, and whether it needs order permission.
#[derive(Debug, Clone, PartialEq, Eq)]
pub struct SignedCall {
    pub method: RestMethod,
    pub path: &'static str,
    pub params: SortedMap<String>,
    pub order_permission: bool,
}

/// A signed call ready for the wire: a `POST` carries its query as a form
/// body, the other methods in the URL.
#[derive(Debug, Clone, PartialEq, Eq)]
pub struct WireCall {
    pub method: RestMethod,
    pub path: &'static str,
    pub query: String,
    pub query_in_body: bool,
    pub order_permission: bool,
}

pub open spec fn invalid_request(r: Result<SignedCall, BinanceRestError>, field: Seq<char>) -> bool {
    r matches Err(BinanceRestError::InvalidOrderRequest(f)) && f@ == field
}

pub open spec fn call_is(
    r: Result<SignedCall, BinanceRestError>,
    method: RestMethod,
    path: Seq<char>,
    params: Map<Seq<u8>, Seq<char>>,
    order_permission: bool,
) -> bool {
    r matches Ok(c) && c.method == method && c.path@ == path && c.params.wf() && param_view(c.params) == params
        && c.order_permission == order_permission
}

pub open spec fn order_identity_params(symbol: Seq<char>, client_order_id: Seq<char>) -> Map<Seq<u8>, Seq<char>> {
    Map::<Seq<u8>, Seq<char>>::empty().insert(utf8("origClientOrderId"@), client_order_id).insert(
        utf8("symbol"@),
        symbol,
    )
}

fn identity_params(symbol: &str, client_order_id: &str) -> (r: SortedMap<String>)
    ensures
        r.wf(),
        param_view(r) == order_identity_params(symbol@, client_order_id@),
{
    let mut params: SortedMap<String> = SortedMap::new();
    assert(param_view(params) =~= Map::<Seq<u8>, Seq<char>>::empty());
    params.insert(owned("origClientOrderId"), owned(client_order_id));
    params.insert(owned("symbol"), owned(symbol));
    assert(param_view(params) =~= order_identity_params(symbol@, client_order_id@));
    params
}

/// A maker order: the request is checked, then posted with its maker
/// parameters; it needs order permission.
pub fn maker_order_call(request: &BinanceMakerOrderRequest) -> (r: Result<SignedCall, BinanceRestError>)
    ensures
        match request.validate_outcome() {
            Some(f) => invalid_request(r, f),
            None => call_is(r, RestMethod::Post, "/fapi/v1/order"@, request.params_spec(), true),
        },
{
    match request.validate() {
        Err(e) => Err(e),
        Ok(()) => Ok(
            SignedCall {
                method: RestMethod::Post,
                path: "/fapi/v1/order",
                params: request.order_params(),
                order_permission: true,
            },
        ),
    }
}

/// Cancelling an order by its client order id; needs order permission.
pub fn cancel_order_call(symbol: &str, client_order_id: &str) -> (r: Result<SignedCall, BinanceRestError>)
    ensures
        !symbol_spec(symbol@) ==> invalid_request(r, "symbol"@),
        symbol_spec(symbol@) && !client_order_id_spec(client_order_id@) ==> invalid_request(r, "client_order_id"@),
        symbol_spec(symbol@) && client_order_id_spec(client_order_id@) ==> call_is(
            r,
            RestMethod::Delete,
            "/fapi/v1/order"@,
            order_identity_params(symbol@, client_order_id@),
            true,
        ),
{
    if !valid_symbol(symbol) {
        return Err(BinanceRestError::InvalidOrderRequest("symbol"));
    }
    if !valid_client_order_id(client_order_id) {
        return Err(BinanceRestError::InvalidOrderRequest("client_order_id"));
    }
    Ok(
        SignedCall {
            method: RestMethod::Delete,
            path: "/fapi/v1/order",
            params: identity_params(symbol, client_order_id),
            order_permission: true,
        },
    )
}

/// Querying an order by its client order id; a read, without order
/// permission.
pub fn query_order_call(symbol: &str, client_order_id: &str) -> (r: Result<SignedCall, BinanceRestError>)
    ensures
        !symbol_spec(symbol@) ==> invalid_request(r, "symbol"@),
        symbol_spec(symbol@) && !client_order_id_spec(client_order_id@) ==> invalid_request(r, "client_order_id"@),
        symbol_spec(symbol@) && client_order_id_spec(client_order_id@) ==> call_is(
            r,
            RestMethod::Get,
            "/fapi/v1/order"@,
            order_identity_params(symbol@, client_order_id@),
            false,
        ),
{
    if !valid_symbol(symbol) {
        return Err(BinanceRestError::InvalidOrderRequest("symbol"));
    }
    if !valid_client_order_id(client_order_id) {
        return Err(BinanceRestError::InvalidOrderRequest("client_order_id"));
    }
    Ok(
        SignedCall {
            method: RestMethod::Get,
            path: "/fapi/v1/order",
            params: identity_params(symbol, client_order_id),
            order_permission: false,
        },
    )
}

/// Cancelling every open order of a symbol; needs order permission.
pub fn cancel_all_open_orders_call(symbol: &str) -> (r: Result<SignedCall, BinanceRestError>)
    ensures
        !symbol_spec(symbol@) ==> invalid_request(r, "symbol"@),
        symbol_spec(symbol@) ==> call_is(
            r,
            RestMethod::Delete,
            "/fapi/v1/allOpenOrders"@,
            Map::<Seq<u8>, Seq<char>>::empty().insert(utf8("symbol"@), symbol@),
            true,
        ),
{
    if !valid_symbol(symbol) {
        return Err(BinanceRestError::InvalidOrderRequest("symbol"));
    }
    let mut params: SortedMap<String> = SortedMap::new();
    assert(param_view(params) =~= Map::<Seq<u8>, Seq<char>>::empty());
    params.insert(owned("symbol"), owned(symbol));
    assert(param_view(params) =~= Map::<Seq<u8>, Seq<char>>::empty().insert(utf8("symbol"@), symbol@));
    Ok(SignedCall { method: RestMethod::Delete, path: "/fapi/v1/allOpenOrders", params, order_permission: true })
}

/// Position risk, for one symbol or all; a read.
pub fn position_risk_call(symbol: Option<&str>) -> (r: Result<SignedCall, BinanceRestError>)
    ensures
        match symbol {
            Some(s) => if symbol_spec(s@) {
                call_is(
                    r,
                    RestMethod::Get,
                    "/fapi/v2/positionRisk"@,
                    Map::<Seq<u8>, Seq<char>>::empty().insert(utf8("symbol"@), s@),
                    false,
                )
            } else {
                invalid_request(r, "symbol"@)
            },
            None => call_is(r, RestMethod::Get, "/fapi/v2/positionRisk"@, Map::<Seq<u8>, Seq<char>>::empty(), false),
        },
{
    let mut params: SortedMap<String> = SortedMap::new();
    assert(param_view(params) =~= Map::<Seq<u8>, Seq<char>>::empty());
    match symbol {
        Some(s) => {
            if !valid_symbol(s) {
                return Err(BinanceRestError::InvalidOrderRequest("symbol"));
            }
            params.insert(owned("symbol"), owned(s));
            assert(param_view(params) =~= Map::<Seq<u8>, Seq<char>>::empty().insert(utf8("symbol"@), s@));
        },
        None => {},
    }
    Ok(SignedCall { method: RestMethod::Get, path: "/fapi/v2/positionRisk", params, order_permission: false })
}

/// Prepares a signed call: the deployment policy must allow the traffic
/// (and live orders, for a call that needs order permission); the
/// parameters are then signed.
pub fn prepare_signed(
    policy: &DeploymentPolicy,
    environment: BinanceEnvironment,
    call: SignedCall,
    secret: &str,
    timestamp_ms: u64,
    recv_window_ms: u64,
) -> (r: Result<WireCall, BinanceRestError>)
    requires
        call.params.wf(),
    ensures
        ({
            let refusal = match policy.refusal(environment) {
                Some(e) => Some(e),
                None => if call.order_permission && !policy.allow_live_orders {
                    Some(SafetyError::LiveOrdersNotAllowed)
                } else {
                    None
                },
            };
            match refusal {
                Some(e) => r == Err::<WireCall, BinanceRestError>(BinanceRestError::Policy(e)),
                None => if secret@.len() == 0 {
                    r == Err::<WireCall, BinanceRestError>(BinanceRestError::Signing(SigningError::EmptySecret))
                } else {
                    r matches Ok(w) && w.method == call.method && w.path == call.path && w.order_permission
                        == call.order_permission && w.query_in_body == (call.method == RestMethod::Post)
                        && signed_query_of(param_view(call.params), secret@, timestamp_ms, recv_window_ms, w.query@)
                },
            }
        }),
{
    let allowed = if call.order_permission {
        policy.validate_for_order(environment)
    } else {
        policy.validate_for(environment)
    };
    match allowed {
        Err(e) => {
            return Err(BinanceRestError::Policy(e));
        },
        Ok(()) => {},
    }
    let method = call.method;
    let path = call.path;
    let order_permission = call.order_permission;
    let query = match signed_rest_query(call.params, secret, timestamp_ms, recv_window_ms) {
        Ok(q) => q,
        Err(e) => {
            return Err(BinanceRestError::Signing(e));
        },
    };
    Ok(WireCall { method, path, query, query_in_body: method == RestMethod::Post, order_permission })
}

/// A call that never got an answer: for an order call its effect is
/// unknown (to be reconciled), for any other call it is a transport error.
pub fn send_failure(order_permission: bool, status: u16, message: String) -> (r: BinanceRestError)
    ensures
        order_permission ==> r == (BinanceRestError::UnknownExecution { status, message }),
        !order_permission ==> r == (BinanceRestError::Transport { message }),
{
    if order_permission {
        BinanceRestError::UnknownExecution { status, message }
    } else {
        BinanceRestError::Transport { message }
    }
}

/// A cancel or query answer must name the order that was asked for.
pub fn check_order_identity(
    response: &BinanceOrderResponse,
    symbol: &str,
    client_order_id: &str,
    what: &'static str,
) -> (r: Result<(), BinanceRestError>)
    ensures
        r is Ok <==> (response.symbol@ == symbol@ && response.client_order_id@ == client_order_id@),
        r matches Err(e) ==> e == BinanceRestError::InvalidOrderResponse(what),
{
    if !str_eq(response.symbol.as_str(), symbol) || !str_eq(response.client_order_id.as_str(), client_order_id) {
        return Err(BinanceRestError::InvalidOrderResponse(what));
    }
    Ok(())
}

/// An acknowledgement with a code other than 200 is an exchange error.
pub fn check_exchange_code(response: BinanceTradFiContractResponse) -> (r: Result<
    BinanceTradFiContractResponse,
    BinanceRestError,
>)
    ensures
        response.code == 200 ==> r == Ok::<BinanceTradFiContractResponse, BinanceRestError>(response),
        response.code != 200 ==> r == Err::<BinanceTradFiContractResponse, BinanceRestError>(
            BinanceRestError::Exchange { code: response.code, message: response.msg },
        ),
{
    if response.code != 200 {
        let code = response.code;
        return Err(BinanceRestError::Exchange { code, message: response.msg });
    }
    Ok(response)
}

/// A user-data stream must come with a listen key.
pub fn check_listen_key(listen_key: String) -> (r: Result<String, BinanceRestError>)
    ensures
        listen_key@.len() > 0 ==> r == Ok::<String, BinanceRestError>(listen_key),
        listen_key@.len() == 0 ==> (r matches Err(BinanceRestError::InvalidOrderResponse(f)) && f@
            == "empty listen key"@),
{
    if listen_key.as_str().unicode_len() == 0 {
        return Err(BinanceRestError::InvalidOrderResponse("empty listen key"));
    }
    Ok(listen_key)
}

/// A keep-alive needs the listen key it extends.
pub fn check_keepalive_key(listen_key: &str) -> (r: Result<(), BinanceRestError>)
    ensures
        listen_key@.len() > 0 ==> r is Ok,
        listen_key@.len() == 0 ==> (r matches Err(BinanceRestError::InvalidOrderRequest(f)) && f@ == "listen_key"@),
{
    if listen_key.unicode_len() == 0 {
        return Err(BinanceRestError::InvalidOrderRequest("listen_key"));
    }
    Ok(())
}

} // verus!
