//! Order lifecycle: every exchange, local or replayed event is checked
//! against the order's causal history before it can change the record.
use crate::keyed::{key_of, SortedStrings};
use crate::model::{
    causal_fill_spec, CandidateOrder, ModelError, QueueFillEstimate, Side, TimeInForce,
    ValidatedOrder,
};
use crate::text::{owned, utf8};
use vstd::prelude::*;

pub mod adaptive_taker;
pub mod binance;
pub mod credential_store;
pub mod credentials;
pub mod environment;
pub mod gateway;
pub mod intent;
pub mod order_ws;
pub mod rest;
pub mod safety;
pub mod session_checkpoint;
pub mod signing;
pub mod supervisor;
pub mod trading_permission;
pub mod user_data;

verus! {

#[derive(Debug, Clone, Copy, PartialEq, Eq, Structural)]
pub enum OrderState {
    Intent,
    Submitted,
    Accepted,
    PartiallyFilled,
    Filled,
    CancelPending,
    Canceled,
    Rejected,
    Unknown,
}

#[derive(Debug, Clone, Copy, PartialEq, Eq, Structural)]
pub enum Authority {
    Local,
    Exchange,
    Replay,
}

#[derive(Debug, Clone, PartialEq, Eq)]
pub struct OrderEvent {
    pub event_id: String,
    pub order_id: String,
    pub symbol: String,
    pub state: OrderState,
    pub authority: Authority,
    pub event_at_ms: u64,
    pub cumulative_quantity: i64,
    pub traded_through_quantity: Option<i64>,
    pub observed_latency_ms: Option<u64>,
}

#[derive(Debug, Clone, PartialEq, Eq)]
pub struct OrderRecord {
    pub order_id: String,
    pub symbol: String,
    pub side: Side,
    pub quantity: i64,
    pub queue_ahead_quantity: i64,
    pub filled_quantity: i64,
    pub state: OrderState,
    pub last_event_at_ms: u64,
    pub contract_digest: String,
    pub applied_event_ids: SortedStrings,
}

/// The lifecycle edges an order may take (besides entering `Unknown`).
pub open spec fn transition_allowed(from: OrderState, to: OrderState) -> bool {
    match from {
        OrderState::Intent => matches!(to, OrderState::Intent | OrderState::Submitted | OrderState::Accepted
            | OrderState::PartiallyFilled | OrderState::Filled | OrderState::Rejected | OrderState::Unknown),
        OrderState::Submitted => matches!(to, OrderState::Submitted | OrderState::Accepted
            | OrderState::PartiallyFilled | OrderState::Filled | OrderState::CancelPending
            | OrderState::Rejected | OrderState::Unknown),
        OrderState::Accepted => matches!(to, OrderState::Accepted | OrderState::PartiallyFilled
            | OrderState::Filled | OrderState::CancelPending | OrderState::Rejected | OrderState::Unknown),
        OrderState::PartiallyFilled => matches!(to, OrderState::PartiallyFilled | OrderState::Filled
            | OrderState::CancelPending | OrderState::Unknown),
        OrderState::CancelPending => matches!(to, OrderState::CancelPending | OrderState::PartiallyFilled
            | OrderState::Filled | OrderState::Canceled | OrderState::Unknown),
        OrderState::Filled => to == OrderState::Filled,
        OrderState::Canceled => to == OrderState::Canceled,
        OrderState::Rejected => to == OrderState::Rejected,
        OrderState::Unknown => to == OrderState::Unknown,
    }
}

pub open spec fn is_authoritative(a: Authority) -> bool {
    a == Authority::Exchange || a == Authority::Replay
}

/// Whether `event` may be applied to `record`: every identity, time,
/// quantity, authority and lifecycle rule holds, and a traded-through
/// observation bounds the fill causally.
pub open spec fn event_admissible(record: OrderRecord, event: OrderEvent) -> bool {
    let recovering_unknown = record.state == OrderState::Unknown && event.state
        != OrderState::Unknown && is_authoritative(event.authority);
    &&& event.event_id@.len() > 0
    &&& !record.applied_event_ids.key_set().contains(key_of(event.event_id))
    &&& event.order_id@ == record.order_id@
    &&& event.symbol@ == record.symbol@
    &&& event.event_at_ms != 0
    &&& record.filled_quantity <= event.cumulative_quantity <= record.quantity
    &&& event.event_at_ms >= record.last_event_at_ms
    &&& !(event.traded_through_quantity matches Some(v) && v < 0)
    &&& (event.state == OrderState::Unknown || recovering_unknown || transition_allowed(
        record.state,
        event.state,
    ))
    &&& !((event.state == OrderState::Filled || event.state == OrderState::PartiallyFilled)
        && event.authority == Authority::Local)
    &&& !((event.state == OrderState::Canceled || event.state == OrderState::Rejected)
        && !is_authoritative(event.authority))
    &&& !(event.state == OrderState::PartiallyFilled && (event.cumulative_quantity == 0
        || event.cumulative_quantity == record.quantity))
    &&& !(event.state == OrderState::Rejected && event.cumulative_quantity != 0)
    &&& !(event.state == OrderState::Filled && event.cumulative_quantity != record.quantity)
    &&& match event.traded_through_quantity {
        Some(t) => match causal_fill_spec(
            record.queue_ahead_quantity as int,
            record.quantity as int,
            t as int,
        ) {
            Some(maximum) => event.cumulative_quantity <= maximum,
            None => false,
        },
        None => true,
    }
}

/// The record after an admissible event: its state, fill and time are taken
/// from the event, and the event id is remembered.
pub open spec fn applied(before: OrderRecord, after: OrderRecord, event: OrderEvent) -> bool {
    &&& after.state == event.state
    &&& after.filled_quantity == event.cumulative_quantity
    &&& after.last_event_at_ms == event.event_at_ms
    &&& after.applied_event_ids.key_set() == before.applied_event_ids.key_set().insert(
        key_of(event.event_id),
    )
    &&& after.applied_event_ids.wf()
    &&& after.order_id == before.order_id
    &&& after.symbol == before.symbol
    &&& after.side == before.side
    &&& after.quantity == before.quantity
    &&& after.queue_ahead_quantity == before.queue_ahead_quantity
    &&& after.contract_digest == before.contract_digest
}

impl OrderRecord {
    pub open spec fn wf(&self) -> bool {
        self.applied_event_ids.wf()
    }

    pub fn from_validated(id: String, order: &ValidatedOrder) -> (r: Self)
        ensures
            r.wf(),
            r.order_id == id,
            r.symbol == order.order.symbol,
            r.side == order.order.side,
            r.quantity == order.order.quantity.0,
            r.queue_ahead_quantity == order.queue_ahead_quantity,
            r.filled_quantity == 0,
            r.state == OrderState::Intent,
            r.last_event_at_ms == order.validated_at_ms,
            r.contract_digest == order.contract_digest,
            r.applied_event_ids.key_set() == Set::<Seq<u8>>::empty(),
    {
        let r = Self {
            order_id: id,
            symbol: order.order.symbol.clone(),
            side: order.order.side,
            quantity: order.order.quantity.0,
            queue_ahead_quantity: order.queue_ahead_quantity,
            filled_quantity: 0,
            state: OrderState::Intent,
            last_event_at_ms: order.validated_at_ms,
            contract_digest: order.contract_digest.clone(),
            applied_event_ids: SortedStrings::new(),
        };
        assert(r.applied_event_ids.key_set() =~= Set::<Seq<u8>>::empty());
        r
    }

    /// Applies one order event. The record changes only when the event is
    /// admissible; otherwise it is left untouched and the evidence is
    /// reported incomplete.
    pub fn apply(&mut self, event: OrderEvent) -> (r: Result<(), ModelError>)
        requires
            old(self).wf(),
        ensures
            final(self).wf(),
            r is Ok <==> event_admissible(*old(self), event),
            r is Ok ==> applied(*old(self), *final(self), event),
            r is Err ==> *final(self) == *old(self) && r == Err::<(), ModelError>(
                ModelError::IncompleteEvidence,
            ),
    {
        let duplicate = self.applied_event_ids.contains(event.event_id.as_str());
        if event.event_id.as_str().is_empty() || duplicate || !(event.order_id == self.order_id)
            || !(event.symbol == self.symbol) || event.event_at_ms == 0
            || event.cumulative_quantity < self.filled_quantity || event.cumulative_quantity
            > self.quantity || event.event_at_ms < self.last_event_at_ms || match event.traded_through_quantity {
            Some(value) => value < 0,
            None => false,
        } {
            return Err(ModelError::IncompleteEvidence);
        }
        let recovering_unknown = self.state == OrderState::Unknown && event.state
            != OrderState::Unknown && (event.authority == Authority::Exchange || event.authority
            == Authority::Replay);
        if event.state != OrderState::Unknown && !recovering_unknown && !valid_transition(
            self.state,
            event.state,
        ) {
            return Err(ModelError::IncompleteEvidence);
        }
        if (event.state == OrderState::Filled || event.state == OrderState::PartiallyFilled)
            && event.authority == Authority::Local {
            return Err(ModelError::IncompleteEvidence);
        }
        if (event.state == OrderState::Canceled || event.state == OrderState::Rejected) && !(
        event.authority == Authority::Exchange || event.authority == Authority::Replay) {
            return Err(ModelError::IncompleteEvidence);
        }
        if event.state == OrderState::PartiallyFilled && (event.cumulative_quantity == 0
            || event.cumulative_quantity == self.quantity) {
            return Err(ModelError::IncompleteEvidence);
        }
        if event.state == OrderState::Rejected && event.cumulative_quantity != 0 {
            return Err(ModelError::IncompleteEvidence);
        }
        if event.state == OrderState::Filled && event.cumulative_quantity != self.quantity {
            return Err(ModelError::IncompleteEvidence);
        }
        if let Some(traded_through_quantity) = event.traded_through_quantity {
            let estimate = QueueFillEstimate {
                queue_ahead_quantity: self.queue_ahead_quantity,
                order_quantity: self.quantity,
                traded_through_quantity,
                observed_latency_ms: match event.observed_latency_ms {
                    Some(v) => v,
                    None => 0,
                },
            };
            match estimate.causal_fill_quantity() {
                Some(maximum_causal_fill) => {
                    if event.cumulative_quantity > maximum_causal_fill {
                        return Err(ModelError::IncompleteEvidence);
                    }
                },
                None => {
                    return Err(ModelError::IncompleteEvidence);
                },
            }
        }
        self.state = event.state;
        self.filled_quantity = event.cumulative_quantity;
        self.last_event_at_ms = event.event_at_ms;
        self.applied_event_ids.insert(event.event_id);
        Ok(())
    }
}

pub fn valid_transition(from: OrderState, to: OrderState) -> (r: bool)
    ensures
        r == transition_allowed(from, to),
{
    match from {
        OrderState::Intent => matches!(to, OrderState::Intent | OrderState::Submitted | OrderState::Accepted
            | OrderState::PartiallyFilled | OrderState::Filled | OrderState::Rejected | OrderState::Unknown),
        OrderState::Submitted => matches!(to, OrderState::Submitted | OrderState::Accepted
            | OrderState::PartiallyFilled | OrderState::Filled | OrderState::CancelPending
            | OrderState::Rejected | OrderState::Unknown),
        OrderState::Accepted => matches!(to, OrderState::Accepted | OrderState::PartiallyFilled
            | OrderState::Filled | OrderState::CancelPending | OrderState::Rejected | OrderState::Unknown),
        OrderState::PartiallyFilled => matches!(to, OrderState::PartiallyFilled | OrderState::Filled
            | OrderState::CancelPending | OrderState::Unknown),
        OrderState::CancelPending => matches!(to, OrderState::CancelPending | OrderState::PartiallyFilled
            | OrderState::Filled | OrderState::Canceled | OrderState::Unknown),
        OrderState::Filled => to == OrderState::Filled,
        OrderState::Canceled => to == OrderState::Canceled,
        OrderState::Rejected => to == OrderState::Rejected,
        OrderState::Unknown => to == OrderState::Unknown,
    }
}

/// A local fill claim is never admitted: every admitted filled or partially
/// filled state carries exchange or replay authority.
pub proof fn law_local_authority_cannot_fill(record: OrderRecord, event: OrderEvent)
    requires
        event_admissible(record, event),
        event.state == OrderState::Filled || event.state == OrderState::PartiallyFilled,
    ensures
        is_authoritative(event.authority),
{
}

/// An admitted event never lowers the filled quantity, never fills beyond the
/// order, and never moves event time backwards.
pub proof fn law_fills_and_time_are_monotone(before: OrderRecord, after: OrderRecord, event: OrderEvent)
    requires
        event_admissible(before, event),
        applied(before, after, event),
    ensures
        before.filled_quantity <= after.filled_quantity <= after.quantity,
        before.last_event_at_ms <= after.last_event_at_ms,
{
}

/// Once an event id has been applied, any later event carrying the same id is
/// rejected, whatever it says.
pub proof fn law_event_ids_apply_once(
    before: OrderRecord,
    after: OrderRecord,
    event: OrderEvent,
    replayed: OrderEvent,
)
    requires
        event_admissible(before, event),
        applied(before, after, event),
        replayed.event_id@ == event.event_id@,
    ensures
        !event_admissible(after, replayed),
{
    assert(after.applied_event_ids.key_set().contains(key_of(event.event_id)));
}

/// A canceled or rejected order can only repeat its terminal state or become
/// unknown; it never crosses into another lifecycle state directly.
pub proof fn law_terminal_states_do_not_cross(record: OrderRecord, event: OrderEvent)
    requires
        event_admissible(record, event),
        record.state == OrderState::Canceled || record.state == OrderState::Rejected,
    ensures
        event.state == record.state || event.state == OrderState::Unknown,
{
}

pub trait ExecutionPort {
    type Error;

    fn submit_maker(&mut self, order: &ValidatedOrder) -> Result<String, Self::Error>;

    fn submit_reduce_only(&mut self, order: &ValidatedOrder) -> Result<String, Self::Error>;

    fn submit_emergency_reduce_only(&mut self, order: &ValidatedOrder) -> Result<String, Self::Error>;

    fn cancel(&mut self, order_id: &str) -> Result<(), Self::Error>;
}

#[derive(Debug, Clone, Copy, PartialEq, Eq, Structural)]
pub struct NoUnscopedAggressor;

pub open spec fn is_plain_maker(order: CandidateOrder) -> bool {
    order.time_in_force == TimeInForce::Gtx && order.trigger_price is None && !order.price_protect
}

/// Only post-only (GTX), untriggered, unprotected orders pass as makers.
pub fn assert_maker(order: &CandidateOrder) -> (r: Result<(), NoUnscopedAggressor>)
    ensures
        r is Ok <==> is_plain_maker(*order),
{
    if order.time_in_force == TimeInForce::Gtx && order.trigger_price.is_none()
        && !order.price_protect {
        Ok(())
    } else {
        Err(NoUnscopedAggressor)
    }
}

/// A live order can always progress on authoritative exchange evidence:
/// from intent, submission, acceptance, a partial fill or a pending cancel,
/// a fresh event for the same order at a later time completes it with a
/// fill of its whole quantity, or fills it partly; a submitted order can be
/// accepted or rejected, a working one asked to cancel, and a pending
/// cancel confirmed.
pub proof fn law_live_orders_can_progress(record: OrderRecord, event: OrderEvent)
    requires
        event.event_id@.len() > 0,
        !record.applied_event_ids.key_set().contains(key_of(event.event_id)),
        event.order_id@ == record.order_id@,
        event.symbol@ == record.symbol@,
        event.event_at_ms != 0,
        event.event_at_ms >= record.last_event_at_ms,
        event.authority == Authority::Exchange,
        event.traded_through_quantity is None,
        record.filled_quantity <= event.cumulative_quantity,
    ensures
        (record.state == OrderState::Intent || record.state == OrderState::Submitted || record.state
            == OrderState::Accepted || record.state == OrderState::PartiallyFilled || record.state
            == OrderState::CancelPending) && event.state == OrderState::Filled && event.cumulative_quantity
            == record.quantity ==> event_admissible(record, event),
        (record.state == OrderState::Intent || record.state == OrderState::Submitted || record.state
            == OrderState::Accepted || record.state == OrderState::PartiallyFilled || record.state
            == OrderState::CancelPending) && event.state == OrderState::PartiallyFilled && 0
            < event.cumulative_quantity < record.quantity ==> event_admissible(record, event),
        record.state == OrderState::CancelPending && event.state == OrderState::Canceled
            && event.cumulative_quantity <= record.quantity ==> event_admissible(record, event),
        (record.state == OrderState::Intent || record.state == OrderState::Submitted) && event.state
            == OrderState::Accepted && event.cumulative_quantity <= record.quantity ==> event_admissible(record, event),
        (record.state == OrderState::Intent || record.state == OrderState::Submitted || record.state
            == OrderState::Accepted) && event.state == OrderState::Rejected && event.cumulative_quantity == 0
            && record.quantity >= 0 ==> event_admissible(record, event),
        (record.state == OrderState::Submitted || record.state == OrderState::Accepted || record.state
            == OrderState::PartiallyFilled) && event.state == OrderState::CancelPending
            && event.cumulative_quantity <= record.quantity ==> event_admissible(record, event),
{
}

} // verus!
