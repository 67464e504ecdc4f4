//! Decisions of the live trading loop: how an intent becomes an exchange
//! order, what a gate decision asks of each symbol, what the periodic
//! health tick does, which user events are taken, and whether the session
//! may end cleanly. The loop that performs the calls lives outside.
use crate::execution::intent::{OrderIntent, Side};
use crate::execution::session_checkpoint::{abs_or_max, abs_or_max_exec};
use crate::execution::supervisor::{GateDecision, GateReason};
use crate::maker_runner::{client_order_id, client_order_id_for, WorkingOrder};
use crate::market::binance::BookTicker;
use crate::market::metadata::{
    normalize_price_spec, normalize_quantity_spec, outcome_matches, validate_order_spec, BinanceScaledExecutionFilters,
};
use crate::num::{sat_i64, sat_sub_i64};
use crate::text::{dec_chars, i64_to_dec, owned, signed_dec_chars, u64_to_dec};
use vstd::prelude::*;

verus! {

/// How an order goes to the exchange.
#[derive(Debug, Clone, Copy, PartialEq, Eq, Structural)]
pub enum OrderRoute {
    /// A reduce-only order that may take liquidity, for emergencies.
    EmergencyReduceOnlyTaker,
    /// A post-only order, reduce-only when asked.
    Maker { reduce_only: bool },
}

/// An order ready to send: the route, the side, the exchange-admissible
/// price and quantity, and the client order id.
#[derive(Debug, Clone, PartialEq, Eq)]
pub struct OrderPlan {
    pub route: OrderRoute,
    pub side: Side,
    pub price_ticks: i64,
    pub quantity_ticks: i64,
    pub client_order_id: String,
}

/// The exchange-side outcome of planning: the route, the normalized price
/// and quantity, or the text of the refusal.
pub open spec fn plan_order_spec(
    symbol: Seq<char>,
    intent: OrderIntent,
    f: BinanceScaledExecutionFilters,
    quantity_scale: nat,
    reduce_only: bool,
    mark_price_ticks: int,
    maximum_quantity: int,
) -> Result<(OrderRoute, i64, i64), Seq<char>> {
    let buy = intent.side == Side::Buy;
    match normalize_price_spec(f, intent.price as int, buy, intent.post_only) {
        Err(reason) => Err("Binance exchange price gate rejected order for "@ + symbol + ": "@ + reason),
        Ok(price) => match normalize_quantity_spec(f, intent.quantity as int, price as int, maximum_quantity, quantity_scale) {
            Err(reason) => Err("Binance exchange quantity gate rejected order for "@ + symbol + ": "@ + reason),
            Ok(quantity) => match validate_order_spec(f, price as int, quantity as int, mark_price_ticks, buy, quantity_scale) {
                Err(reason) => Err("Binance exchange filter rejected order for "@ + symbol + ": "@ + reason),
                Ok(_) => if !intent.post_only && intent.reduce_only {
                    if !reduce_only {
                        Err("emergency taker intent must be reduce-only"@)
                    } else {
                        Ok((OrderRoute::EmergencyReduceOnlyTaker, price, quantity))
                    }
                } else if !intent.post_only {
                    Err("non-maker intent missing adaptive taker authorization"@)
                } else {
                    Ok((OrderRoute::Maker { reduce_only }, price, quantity))
                },
            },
        },
    }
}

fn rejection(prefix: &str, symbol: &str, reason: &str) -> (r: String)
    ensures
        r@ == prefix@ + symbol@ + ": "@ + reason@,
{
    let mut s = owned(prefix);
    s.append(symbol);
    s.append(": ");
    s.append(reason);
    s
}

/// Turns an intent into an order: the price is put on the tick, the
/// quantity made admissible within `maximum_quantity`, the whole order
/// checked against the filters at the mark price, and the route chosen.
/// An emergency taker must come with `reduce_only`; any other non-maker
/// intent lacks taker authorization and is refused.
pub fn plan_order(
    symbol: &str,
    intent: OrderIntent,
    filters: BinanceScaledExecutionFilters,
    quantity_scale: u32,
    now_ms: u64,
    sequence: u64,
    reduce_only: bool,
    mark_price_ticks: i64,
    maximum_quantity: i64,
) -> (r: Result<OrderPlan, String>)
    ensures
        ({
            let s = plan_order_spec(
                symbol@,
                intent,
                filters,
                quantity_scale as nat,
                reduce_only,
                mark_price_ticks as int,
                maximum_quantity as int,
            );
            match r {
                Ok(plan) => s == Ok::<(OrderRoute, i64, i64), Seq<char>>(
                    (plan.route, plan.price_ticks, plan.quantity_ticks),
                ) && plan.side == intent.side && plan.client_order_id@ == client_order_id_for(now_ms, sequence),
                Err(m) => s is Err && m@ == s->Err_0,
            }
        }),
{
    let buy = match intent.side {
        Side::Buy => true,
        Side::Sell => false,
    };
    let price = match filters.normalize_price(intent.price, buy, intent.post_only) {
        Ok(p) => p,
        Err(reason) => {
            return Err(rejection("Binance exchange price gate rejected order for ", symbol, reason));
        },
    };
    let quantity = match filters.normalize_quantity(intent.quantity, price, maximum_quantity, quantity_scale) {
        Ok(q) => q,
        Err(reason) => {
            return Err(rejection("Binance exchange quantity gate rejected order for ", symbol, reason));
        },
    };
    match filters.validate_order(price, quantity, mark_price_ticks, buy, quantity_scale) {
        Ok(()) => {},
        Err(reason) => {
            return Err(rejection("Binance exchange filter rejected order for ", symbol, reason));
        },
    }
    let route = if intent.is_emergency_taker() {
        if !reduce_only {
            return Err(owned("emergency taker intent must be reduce-only"));
        }
        OrderRoute::EmergencyReduceOnlyTaker
    } else {
        if !intent.post_only {
            return Err(owned("non-maker intent missing adaptive taker authorization"));
        }
        OrderRoute::Maker { reduce_only }
    };
    Ok(OrderPlan { route, side: intent.side, price_ticks: price, quantity_ticks: quantity, client_order_id: client_order_id(now_ms, sequence) })
}

/// The reduce-only maker order that closes a position at the touch: a long
/// sells at the bid, a short buys at the ask, for the whole position
/// (`i64::MIN` capped at `i64::MAX`); none while flat or without a book.
pub open spec fn flatten_intent_spec(symbol_id: u32, position_ticks: i64, book: Option<BookTicker>) -> Option<OrderIntent> {
    if position_ticks == 0 || book is None {
        None
    } else {
        let side = if position_ticks > 0 {
            Side::Sell
        } else {
            Side::Buy
        };
        let price = if position_ticks > 0 {
            book->0.bid_price.0
        } else {
            book->0.ask_price.0
        };
        Some(
            OrderIntent {
                symbol: symbol_id,
                side,
                price,
                quantity: abs_or_max(position_ticks),
                post_only: true,
                reduce_only: true,
            },
        )
    }
}

pub fn flatten_intent(symbol_id: u32, position_ticks: i64, book: Option<&BookTicker>) -> (r: Option<OrderIntent>)
    ensures
        r == flatten_intent_spec(
            symbol_id,
            position_ticks,
            match book {
                Some(b) => Some(*b),
                None => None,
            },
        ),
{
    if position_ticks == 0 {
        return None;
    }
    match book {
        None => None,
        Some(b) => {
            let (side, price) = if position_ticks > 0 {
                (Side::Sell, b.bid_price.0)
            } else {
                (Side::Buy, b.ask_price.0)
            };
            Some(
                OrderIntent {
                    symbol: symbol_id,
                    side,
                    price,
                    quantity: abs_or_max_exec(position_ticks),
                    post_only: true,
                    reduce_only: true,
                },
            )
        },
    }
}

/// The action a gate decision calls for on one symbol.
#[derive(Debug, Clone, Copy, PartialEq, Eq)]
pub enum SymbolStep {
    /// Nothing to do.
    Nothing,
    /// Send the intent as a new order, within `maximum_quantity`.
    Place { intent: OrderIntent, reduce_only: bool, maximum_quantity: i64 },
    /// Enter flattening: cancel the symbol's orders when orders are sent,
    /// and close the position with `order` when there is one.
    Flatten { cancel_all: bool, order: Option<OrderIntent>, maximum_quantity: i64 },
    /// Cancel the resting order and wait for the feeds to recover.
    CancelWorking,
    /// Stop the session on a gate halt.
    Stop(GateReason),
}

/// Halts that come from startup or a transient feed gap: they block new
/// risk and withdraw the resting quote, but do not end the session.
pub open spec fn transient_halt(reason: GateReason) -> bool {
    reason == GateReason::NotHealthy || reason == GateReason::MarketStale || reason == GateReason::FxStale
        || reason == GateReason::AnchorUnavailable
}

/// What a gate decision asks for one symbol: an allowed intent is sent when
/// orders are sent and none rests, within the position capacity left; a
/// flatten cancels and closes the position at the touch; a transient halt
/// withdraws a resting order; any other halt stops the session.
pub open spec fn gate_step_spec(
    decision: GateDecision,
    intent: OrderIntent,
    send_orders: bool,
    has_working: bool,
    position_ticks: i64,
    book: Option<BookTicker>,
    symbol_id: u32,
    max_position: i64,
) -> SymbolStep {
    match decision {
        GateDecision::Allow => if send_orders && !has_working {
            SymbolStep::Place {
                intent,
                reduce_only: false,
                maximum_quantity: sat_i64(max_position - abs_or_max(position_ticks)) as i64,
            }
        } else {
            SymbolStep::Nothing
        },
        GateDecision::Flatten(_) => SymbolStep::Flatten {
            cancel_all: send_orders,
            order: if send_orders {
                flatten_intent_spec(symbol_id, position_ticks, book)
            } else {
                None
            },
            maximum_quantity: abs_or_max(position_ticks),
        },
        GateDecision::Halt(reason) => if transient_halt(reason) {
            if send_orders && has_working {
                SymbolStep::CancelWorking
            } else {
                SymbolStep::Nothing
            }
        } else {
            SymbolStep::Stop(reason)
        },
        GateDecision::NoAction(_) => SymbolStep::Nothing,
    }
}

pub fn gate_step(
    decision: GateDecision,
    intent: OrderIntent,
    send_orders: bool,
    has_working: bool,
    position_ticks: i64,
    book: Option<&BookTicker>,
    symbol_id: u32,
    max_position: i64,
) -> (r: SymbolStep)
    ensures
        r == gate_step_spec(
            decision,
            intent,
            send_orders,
            has_working,
            position_ticks,
            match book {
                Some(b) => Some(*b),
                None => None,
            },
            symbol_id,
            max_position,
        ),
{
    match decision {
        GateDecision::Allow => {
            if send_orders && !has_working {
                SymbolStep::Place {
                    intent,
                    reduce_only: false,
                    maximum_quantity: sat_sub_i64(max_position, abs_or_max_exec(position_ticks)),
                }
            } else {
                SymbolStep::Nothing
            }
        },
        GateDecision::Flatten(_) => {
            let order = if send_orders {
                flatten_intent(symbol_id, position_ticks, book)
            } else {
                None
            };
            SymbolStep::Flatten { cancel_all: send_orders, order, maximum_quantity: abs_or_max_exec(position_ticks) }
        },
        GateDecision::Halt(reason) => {
            let transient = match reason {
                GateReason::NotHealthy | GateReason::MarketStale | GateReason::FxStale | GateReason::AnchorUnavailable => true,
                _ => false,
            };
            if transient {
                if send_orders && has_working {
                    SymbolStep::CancelWorking
                } else {
                    SymbolStep::Nothing
                }
            } else {
                SymbolStep::Stop(reason)
            }
        },
        GateDecision::NoAction(_) => SymbolStep::Nothing,
    }
}

/// Why a health tick ends the session.
#[derive(Debug, Clone, Copy, PartialEq, Eq, Structural)]
pub enum TickStop {
    /// The market queue overflowed or its producer stopped.
    MarketFeed,
    /// The user-data queue overflowed.
    UserFeed,
}

impl TickStop {
    pub open spec fn text(self) -> Seq<char> {
        match self {
            TickStop::MarketFeed => "market event queue overflowed or market producer stopped; risk stopped"@,
            TickStop::UserFeed => "user data event queue overflowed; risk stopped"@,
        }
    }

    pub fn message(self) -> (r: &'static str)
        ensures
            r@ == self.text(),
    {
        match self {
            TickStop::MarketFeed => "market event queue overflowed or market producer stopped; risk stopped",
            TickStop::UserFeed => "user data event queue overflowed; risk stopped",
        }
    }
}

/// What one periodic health tick does.
#[derive(Debug, Clone, Copy, PartialEq, Eq, Structural)]
pub struct TickStep {
    /// End the session, risk stopped.
    pub stop: Option<TickStop>,
    /// Move the supervisor out of healthy trading.
    pub disconnect_supervisor: bool,
    /// Cancel every resting order.
    pub cancel_working: bool,
    /// Write the session checkpoint now.
    pub persist_checkpoint: bool,
}

/// An overflowing queue risk-stops the session (market first); otherwise
/// an unready system takes a healthy supervisor out of trading and, when
/// orders are sent, withdraws every resting order; the checkpoint is
/// written once `checkpoint_interval_ms` has passed since the last one.
pub open spec fn tick_step_spec(
    market_overflow: bool,
    user_overflow: bool,
    execution_ready: bool,
    supervisor_healthy: bool,
    send_orders: bool,
    now_ms: u64,
    last_checkpoint_at_ms: u64,
    checkpoint_interval_ms: u64,
) -> TickStep {
    if market_overflow || user_overflow {
        TickStep {
            stop: Some(
                if market_overflow {
                    TickStop::MarketFeed
                } else {
                    TickStop::UserFeed
                },
            ),
            disconnect_supervisor: true,
            cancel_working: false,
            persist_checkpoint: false,
        }
    } else {
        TickStep {
            stop: None,
            disconnect_supervisor: !execution_ready && supervisor_healthy,
            cancel_working: !execution_ready && send_orders,
            persist_checkpoint: (if now_ms >= last_checkpoint_at_ms {
                now_ms - last_checkpoint_at_ms
            } else {
                0
            }) >= checkpoint_interval_ms,
        }
    }
}

pub fn tick_step(
    market_overflow: bool,
    user_overflow: bool,
    execution_ready: bool,
    supervisor_healthy: bool,
    send_orders: bool,
    now_ms: u64,
    last_checkpoint_at_ms: u64,
    checkpoint_interval_ms: u64,
) -> (r: TickStep)
    ensures
        r == tick_step_spec(
            market_overflow,
            user_overflow,
            execution_ready,
            supervisor_healthy,
            send_orders,
            now_ms,
            last_checkpoint_at_ms,
            checkpoint_interval_ms,
        ),
{
    if market_overflow || user_overflow {
        let stop = if market_overflow {
            TickStop::MarketFeed
        } else {
            TickStop::UserFeed
        };
        return TickStep { stop: Some(stop), disconnect_supervisor: true, cancel_working: false, persist_checkpoint: false };
    }
    let elapsed = if now_ms >= last_checkpoint_at_ms {
        now_ms - last_checkpoint_at_ms
    } else {
        0
    };
    TickStep {
        stop: None,
        disconnect_supervisor: !execution_ready && supervisor_healthy,
        cancel_working: !execution_ready && send_orders,
        persist_checkpoint: elapsed >= checkpoint_interval_ms,
    }
}

/// A user event stamped before the latest one seen is dropped; otherwise
/// it is taken and the latest time advances to it (an unstamped event,
/// time zero, is always taken).
pub open spec fn user_event_order_spec(event_time_ms: u64, last_event_time_ms: u64) -> Option<u64> {
    if event_time_ms > 0 && event_time_ms < last_event_time_ms {
        None
    } else if event_time_ms > last_event_time_ms {
        Some(event_time_ms)
    } else {
        Some(last_event_time_ms)
    }
}

pub fn user_event_order(event_time_ms: u64, last_event_time_ms: u64) -> (r: Option<u64>)
    ensures
        r == user_event_order_spec(event_time_ms, last_event_time_ms),
{
    if event_time_ms > 0 && event_time_ms < last_event_time_ms {
        None
    } else if event_time_ms > last_event_time_ms {
        Some(event_time_ms)
    } else {
        Some(last_event_time_ms)
    }
}

/// What the loop does once an event has been applied.
#[derive(Debug, Clone, Copy, PartialEq, Eq, Structural)]
pub enum RecoveryStep {
    /// Reconnect the risk-stopped supervisor, reconcile the account and
    /// adopt the remote positions and orders.
    Recover,
    /// Declare the initial reconciliation clean.
    ConfirmInitial,
    /// Neither.
    Stay,
}

/// After an event: a risk-stopped supervisor recovers once the system is
/// ready; a synchronizing one that has not yet been declared ready is
/// declared so.
pub open spec fn recovery_step_spec(execution_ready: bool, risk_stopped: bool, synchronizing: bool, supervisor_ready: bool) -> RecoveryStep {
    if execution_ready && risk_stopped {
        RecoveryStep::Recover
    } else if !supervisor_ready && synchronizing {
        RecoveryStep::ConfirmInitial
    } else {
        RecoveryStep::Stay
    }
}

pub fn recovery_step(execution_ready: bool, risk_stopped: bool, synchronizing: bool, supervisor_ready: bool) -> (r: RecoveryStep)
    ensures
        r == recovery_step_spec(execution_ready, risk_stopped, synchronizing, supervisor_ready),
{
    if execution_ready && risk_stopped {
        RecoveryStep::Recover
    } else if !supervisor_ready && synchronizing {
        RecoveryStep::ConfirmInitial
    } else {
        RecoveryStep::Stay
    }
}

/// What the account shows for one symbol at the end of a session.
#[derive(Debug, Clone, PartialEq, Eq)]
pub struct RemoteResidual {
    pub symbol: String,
    pub position_ticks: i64,
    pub working_orders: u64,
}

pub open spec fn residual_open(r: RemoteResidual) -> bool {
    r.position_ticks != 0 || r.working_orders != 0
}

pub open spec fn residual_item(r: RemoteResidual) -> Seq<char> {
    r.symbol@ + ":position_ticks="@ + signed_dec_chars(r.position_ticks as int) + ",working_orders="@ + dec_chars(
        r.working_orders as nat,
    )
}

/// The residual items of the open symbols, joined by commas.
pub open spec fn residual_list(rs: Seq<RemoteResidual>) -> Seq<char>
    decreases rs.len(),
{
    if rs.len() == 0 {
        Seq::empty()
    } else if !residual_open(rs.last()) {
        residual_list(rs.drop_last())
    } else if residual_list(rs.drop_last()).len() == 0 {
        residual_item(rs.last())
    } else {
        residual_list(rs.drop_last()) + ","@ + residual_item(rs.last())
    }
}

pub open spec fn any_residual(rs: Seq<RemoteResidual>) -> bool {
    exists|i: int| 0 <= i < rs.len() && residual_open(#[trigger] rs[i])
}

proof fn lemma_residual_list_empty(rs: Seq<RemoteResidual>)
    ensures
        (residual_list(rs).len() == 0) == !any_residual(rs),
    decreases rs.len(),
{
    if rs.len() > 0 {
        lemma_residual_list_empty(rs.drop_last());
        let item = residual_item(rs.last());
        assert(item.len() > 0) by {
            assert(item =~= rs.last().symbol@ + (":position_ticks="@ + signed_dec_chars(rs.last().position_ticks as int)
                + ",working_orders="@ + dec_chars(rs.last().working_orders as nat)));
            reveal_strlit(":position_ticks=");
        }
        if any_residual(rs.drop_last()) {
            let i = choose|i: int| 0 <= i < rs.drop_last().len() && residual_open(#[trigger] rs.drop_last()[i]);
            assert(residual_open(rs[i]));
        }
        if any_residual(rs) && !residual_open(rs.last()) {
            let i = choose|i: int| 0 <= i < rs.len() && residual_open(#[trigger] rs[i]);
            assert(residual_open(rs.drop_last()[i]));
        }
        if residual_open(rs.last()) {
            assert(residual_open(rs[rs.len() - 1]));
        }
    }
}

/// A session ends cleanly only with no remote position and no open order
/// left; otherwise the residual symbols are reported in the order given.
pub fn completion_check(residuals: &Vec<RemoteResidual>) -> (r: Result<(), String>)
    ensures
        !any_residual(residuals@) ==> r is Ok,
        any_residual(residuals@) ==> (r matches Err(m)
            && m@ == "normal live completion blocked by residual remote state: "@ + residual_list(residuals@)),
{
    let mut list = String::new();
    let mut i: usize = 0;
    while i < residuals.len()
        invariant
            i <= residuals@.len(),
            list@ == residual_list(residuals@.subrange(0, i as int)),
        decreases residuals@.len() - i,
    {
        let ghost pre = residuals@.subrange(0, i as int);
        let ghost next = residuals@.subrange(0, i + 1);
        assert(next.drop_last() =~= pre);
        let item = &residuals[i];
        if item.position_ticks != 0 || item.working_orders != 0 {
            if !list.as_str().is_empty() {
                list.append(",");
            }
            list.append(item.symbol.as_str());
            list.append(":position_ticks=");
            list.append(i64_to_dec(item.position_ticks).as_str());
            list.append(",working_orders=");
            list.append(u64_to_dec(item.working_orders).as_str());
        }
        proof {
            if residual_open(next.last()) {
                assert(list@ =~= residual_list(next));
            }
        }
        i = i + 1;
    }
    assert(residuals@.subrange(0, residuals@.len() as int) =~= residuals@);
    proof {
        lemma_residual_list_empty(residuals@);
    }
    if list.as_str().is_empty() {
        Ok(())
    } else {
        let mut message = owned("normal live completion blocked by residual remote state: ");
        message.append(list.as_str());
        Err(message)
    }
}

/// The one managed open order an account snapshot may hold for a symbol:
/// none, or the single order; more than one is refused.
pub fn adopt_working_order(symbol: &str, remote: &Vec<WorkingOrder>) -> (r: Result<Option<WorkingOrder>, String>)
    ensures
        remote@.len() > 1 ==> (r matches Err(m) && m@ == "multiple managed open orders on "@ + symbol@),
        remote@.len() == 0 ==> r == Ok::<Option<WorkingOrder>, String>(None),
        remote@.len() == 1 ==> (r matches Ok(Some(o)) && o.client_order_id@ == remote@[0].client_order_id@
            && o.side == remote@[0].side && o.price_ticks == remote@[0].price_ticks && o.quantity_ticks
            == remote@[0].quantity_ticks),
{
    if remote.len() > 1 {
        let mut m = owned("multiple managed open orders on ");
        m.append(symbol);
        return Err(m);
    }
    if remote.len() == 0 {
        return Ok(None);
    }
    let o = &remote[0];
    Ok(Some(WorkingOrder { client_order_id: owned(o.client_order_id.as_str()), side: o.side, price_ticks: o.price_ticks, quantity_ticks: o.quantity_ticks }))
}

/// Flattening is confirmed once every symbol's position is flat.
pub fn flatten_confirmed(flattening: bool, positions: &Vec<i64>) -> (r: bool)
    ensures
        r == (flattening && forall|i: int| 0 <= i < positions@.len() ==> positions@[i] == 0),
{
    if !flattening {
        return false;
    }
    let mut i: usize = 0;
    while i < positions.len()
        invariant
            i <= positions@.len(),
            forall|k: int| 0 <= k < i ==> positions@[k] == 0,
        decreases positions@.len() - i,
    {
        if positions[i] != 0 {
            return false;
        }
        i = i + 1;
    }
    true
}

} // verus!
