//! Account user-data events: order updates, account updates and stream
//! expiry, with the identity rules an order update must meet.
use crate::execution::environment::{user_data_ws_base_of, BinanceEnvironment};
use crate::text::{owned, str_eq, trim_end_char, trim_trailing};
use vstd::prelude::*;

verus! {

#[derive(Debug, Clone, PartialEq, Eq)]
pub enum UserDataError {
    Decode,
    Missing(&'static str),
    Unsupported(String),
    Transport(String),
    Closed,
    ListenKeyExpired,
    FrameTooLarge,
}

#[derive(Debug, Clone, PartialEq, Eq)]
pub enum UserDataEvent {
    OrderUpdate(Box<OrderUpdate>),
    AccountUpdate(AccountUpdate),
    ListenKeyExpired,
    /// A newly introduced Binance user event, preserved for audit without
    /// pretending it changed trading state. `payload` is the raw JSON text.
    Unmodeled { event_time_ms: u64, event_type: String, payload: String },
}

#[derive(Debug, Clone, PartialEq, Eq)]
pub struct OrderUpdate {
    pub event_time_ms: u64,
    pub transaction_time_ms: u64,
    pub symbol: String,
    pub client_order_id: String,
    pub order_id: i64,
    pub side: String,
    pub order_type: String,
    pub time_in_force: String,
    pub status: String,
    pub execution_type: String,
    pub executed_quantity: String,
    pub last_filled_quantity: String,
    pub average_price: String,
    pub reduce_only: bool,
}

#[derive(Debug, Clone, PartialEq, Eq)]
pub struct AccountUpdate {
    pub event_time_ms: u64,
    pub transaction_time_ms: u64,
    pub reason: String,
    pub positions: Vec<PositionUpdate>,
    pub balances: Vec<BalanceUpdate>,
}

#[derive(Debug, Clone, PartialEq, Eq)]
pub struct PositionUpdate {
    pub symbol: String,
    pub position_amount: String,
    pub entry_price: String,
    pub unrealized_profit: String,
    pub position_side: String,
}

#[derive(Debug, Clone, PartialEq, Eq)]
pub struct BalanceUpdate {
    pub asset: String,
    pub wallet_balance: String,
    pub cross_wallet_balance: String,
    pub balance_change: String,
}

/// What one section of a user-data frame decoded to: absent, present but
/// not of the expected shape, or decoded.
#[derive(Debug, Clone, PartialEq, Eq)]
pub enum Section<T> {
    Missing,
    Invalid,
    Decoded(T),
}

/// The fields of the order object (`o`) of an order update.
#[derive(Debug, Clone, PartialEq, Eq)]
pub struct OrderFields {
    pub symbol: String,
    pub client_order_id: String,
    pub order_id: i64,
    pub side: String,
    pub order_type: String,
    pub time_in_force: String,
    pub status: String,
    pub execution_type: String,
    pub executed_quantity: String,
    pub last_filled_quantity: String,
    pub average_price: String,
    pub reduce_only: bool,
}

/// The fields of the account object (`a`) of an account update.
#[derive(Debug, Clone, PartialEq, Eq)]
pub struct AccountFields {
    pub transaction_time_ms: u64,
    pub reason: String,
    pub positions: Vec<PositionUpdate>,
    pub balances: Vec<BalanceUpdate>,
}

/// A decoded user-data frame as the dispatch reads it: the event type `e`
/// when it is a string, the event time `E` and transaction time `T` when
/// they are unsigned integers, the order and account sections, and the raw
/// text.
#[derive(Debug, Clone, PartialEq, Eq)]
pub struct UserDataFrame {
    pub event_type: Option<String>,
    pub event_time_ms: Option<u64>,
    pub transaction_time_ms: Option<u64>,
    pub order: Section<OrderFields>,
    pub account: Section<AccountFields>,
    pub payload: String,
}

pub open spec fn missing(r: Result<UserDataEvent, UserDataError>, field: Seq<char>) -> bool {
    r matches Err(UserDataError::Missing(f)) && f@ == field
}

/// The event a user-data frame stands for: an order update needs its order
/// object, a symbol and a client order id, and a transaction time; an
/// account update needs its account object; a listen-key expiry stands for
/// itself; any other event type is kept, unmodeled, with its raw text.
pub fn user_data_event(frame: UserDataFrame) -> (r: Result<UserDataEvent, UserDataError>)
    ensures
        match (frame.event_type, frame.event_time_ms) {
            (None, _) => missing(r, "e"@),
            (Some(_), None) => missing(r, "E"@),
            (Some(e), Some(at)) => {
            if e@ == "ORDER_TRADE_UPDATE"@ {
                match frame.order {
                    Section::Missing => missing(r, "o"@),
                    Section::Invalid => r == Err::<UserDataEvent, UserDataError>(UserDataError::Decode),
                    Section::Decoded(o) => if o.symbol@.len() == 0 || o.client_order_id@.len() == 0 {
                        missing(r, "order identity"@)
                    } else {
                        match frame.transaction_time_ms {
                            None => missing(r, "T"@),
                            Some(t) => r == Ok::<UserDataEvent, UserDataError>(
                                UserDataEvent::OrderUpdate(
                                    Box::new(
                                        OrderUpdate {
                                            event_time_ms: at,
                                            transaction_time_ms: t,
                                            symbol: o.symbol,
                                            client_order_id: o.client_order_id,
                                            order_id: o.order_id,
                                            side: o.side,
                                            order_type: o.order_type,
                                            time_in_force: o.time_in_force,
                                            status: o.status,
                                            execution_type: o.execution_type,
                                            executed_quantity: o.executed_quantity,
                                            last_filled_quantity: o.last_filled_quantity,
                                            average_price: o.average_price,
                                            reduce_only: o.reduce_only,
                                        },
                                    ),
                                ),
                            ),
                        }
                    },
                }
            } else if e@ == "ACCOUNT_UPDATE"@ {
                match frame.account {
                    Section::Missing => missing(r, "a"@),
                    Section::Invalid => r == Err::<UserDataEvent, UserDataError>(UserDataError::Decode),
                    Section::Decoded(a) => r == Ok::<UserDataEvent, UserDataError>(
                        UserDataEvent::AccountUpdate(
                            AccountUpdate {
                                event_time_ms: at,
                                transaction_time_ms: a.transaction_time_ms,
                                reason: a.reason,
                                positions: a.positions,
                                balances: a.balances,
                            },
                        ),
                    ),
                }
            } else if e@ == "listenKeyExpired"@ {
                r == Ok::<UserDataEvent, UserDataError>(UserDataEvent::ListenKeyExpired)
            } else {
                r == Ok::<UserDataEvent, UserDataError>(
                    UserDataEvent::Unmodeled { event_time_ms: at, event_type: e, payload: frame.payload },
                )
            }
        },
        },
{
    let event_type = match frame.event_type {
        Some(e) => e,
        None => {
            return Err(UserDataError::Missing("e"));
        },
    };
    let event_time_ms = match frame.event_time_ms {
        Some(at) => at,
        None => {
            return Err(UserDataError::Missing("E"));
        },
    };
    if str_eq(event_type.as_str(), "ORDER_TRADE_UPDATE") {
        let o = match frame.order {
            Section::Missing => {
                return Err(UserDataError::Missing("o"));
            },
            Section::Invalid => {
                return Err(UserDataError::Decode);
            },
            Section::Decoded(o) => o,
        };
        if o.symbol.as_str().is_empty() || o.client_order_id.as_str().is_empty() {
            return Err(UserDataError::Missing("order identity"));
        }
        let transaction_time_ms = match frame.transaction_time_ms {
            Some(t) => t,
            None => {
                return Err(UserDataError::Missing("T"));
            },
        };
        Ok(
            UserDataEvent::OrderUpdate(
                Box::new(
                    OrderUpdate {
                        event_time_ms,
                        transaction_time_ms,
                        symbol: o.symbol,
                        client_order_id: o.client_order_id,
                        order_id: o.order_id,
                        side: o.side,
                        order_type: o.order_type,
                        time_in_force: o.time_in_force,
                        status: o.status,
                        execution_type: o.execution_type,
                        executed_quantity: o.executed_quantity,
                        last_filled_quantity: o.last_filled_quantity,
                        average_price: o.average_price,
                        reduce_only: o.reduce_only,
                    },
                ),
            ),
        )
    } else if str_eq(event_type.as_str(), "ACCOUNT_UPDATE") {
        match frame.account {
            Section::Missing => Err(UserDataError::Missing("a")),
            Section::Invalid => Err(UserDataError::Decode),
            Section::Decoded(a) => Ok(
                UserDataEvent::AccountUpdate(
                    AccountUpdate {
                        event_time_ms,
                        transaction_time_ms: a.transaction_time_ms,
                        reason: a.reason,
                        positions: a.positions,
                        balances: a.balances,
                    },
                ),
            ),
        }
    } else if str_eq(event_type.as_str(), "listenKeyExpired") {
        Ok(UserDataEvent::ListenKeyExpired)
    } else {
        Ok(UserDataEvent::Unmodeled { event_time_ms, event_type, payload: frame.payload })
    }
}

/// A listen-key expiry ends the stream once it has been delivered.
pub fn ends_stream(event: &UserDataEvent) -> (r: bool)
    ensures
        r == (*event is ListenKeyExpired),
{
    match event {
        UserDataEvent::ListenKeyExpired => true,
        _ => false,
    }
}

pub struct BinanceUserDataStream {
    environment: BinanceEnvironment,
    listen_key: String,
    max_frame_bytes: usize,
    http_proxy: Option<String>,
}

impl BinanceUserDataStream {
    pub closed spec fn spec_environment(&self) -> BinanceEnvironment {
        self.environment
    }

    pub closed spec fn spec_listen_key(&self) -> Seq<char> {
        self.listen_key@
    }

    pub closed spec fn spec_max_frame_bytes(&self) -> usize {
        self.max_frame_bytes
    }

    pub closed spec fn spec_http_proxy(&self) -> Option<String> {
        self.http_proxy
    }

    /// A stream needs a listen key; frames are capped at 1 MiB.
    pub fn new(environment: BinanceEnvironment, listen_key: String, http_proxy: Option<String>) -> (r: Result<Self, UserDataError>)
        ensures
            listen_key@.len() == 0 ==> (r matches Err(UserDataError::Missing(field)) && field@ == "listenKey"@),
            listen_key@.len() > 0 ==> (r matches Ok(s) && s.spec_environment() == environment
                && s.spec_listen_key() == listen_key@ && s.spec_max_frame_bytes() == 1_048_576
                && s.spec_http_proxy() == http_proxy),
    {
        if listen_key.as_str().is_empty() {
            return Err(UserDataError::Missing("listenKey"));
        }
        Ok(Self { environment, listen_key, max_frame_bytes: 1_048_576, http_proxy })
    }

    pub fn environment(&self) -> (r: BinanceEnvironment)
        ensures
            r == self.spec_environment(),
    {
        self.environment
    }

    pub fn listen_key(&self) -> (r: &String)
        ensures
            r@ == self.spec_listen_key(),
    {
        &self.listen_key
    }

    pub fn max_frame_bytes(&self) -> (r: usize)
        ensures
            r == self.spec_max_frame_bytes(),
    {
        self.max_frame_bytes
    }

    /// `<user data base>/ws/<listen key>`, the base without trailing
    /// slashes.
    pub fn stream_url(&self) -> (r: String)
        ensures
            r@ == trim_trailing(user_data_ws_base_of(self.spec_environment()), '/') + "/ws/"@
                + self.spec_listen_key(),
    {
        let base = self.environment.endpoints().user_data_ws_base;
        let mut url = owned(trim_end_char(base.as_str(), '/'));
        url.append("/ws/");
        url.append(self.listen_key.as_str());
        url
    }

    pub fn http_proxy(&self) -> (r: &Option<String>)
        ensures
            *r == self.spec_http_proxy(),
    {
        &self.http_proxy
    }
}

} // verus!
