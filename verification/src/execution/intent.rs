//! Order intents and the single domain validator every intent passes.
use vstd::prelude::*;

verus! {

#[derive(Debug, Clone, Copy, PartialEq, Eq, Structural)]
pub enum Side {
    Buy,
    Sell,
}

#[derive(Debug, Clone, Copy, PartialEq, Eq, Structural)]
pub enum OrderIntentError {
    InvalidShape,
    UnscopedAggressor,
}

#[derive(Debug, Clone, Copy, PartialEq, Eq, Structural)]
pub struct OrderIntent {
    pub symbol: u32,
    pub side: Side,
    pub price: i64,
    pub quantity: i64,
    pub post_only: bool,
    pub reduce_only: bool,
}

impl OrderIntent {
    pub open spec fn admissible_shape(self) -> bool {
        self.symbol > 0 && self.price > 0 && self.quantity > 0
    }

    pub fn maker_buy(symbol: u32, price: i64, quantity: i64) -> (r: Self)
        ensures
            r == (OrderIntent { symbol, side: Side::Buy, price, quantity, post_only: true, reduce_only: false }),
    {
        Self { symbol, side: Side::Buy, price, quantity, post_only: true, reduce_only: false }
    }

    pub fn maker_sell(symbol: u32, price: i64, quantity: i64) -> (r: Self)
        ensures
            r == (OrderIntent { symbol, side: Side::Sell, price, quantity, post_only: true, reduce_only: false }),
    {
        Self { symbol, side: Side::Sell, price, quantity, post_only: true, reduce_only: false }
    }

    pub fn reduce_only_maker_buy(symbol: u32, price: i64, quantity: i64) -> (r: Self)
        ensures
            r == (OrderIntent { symbol, side: Side::Buy, price, quantity, post_only: true, reduce_only: true }),
    {
        Self { symbol, side: Side::Buy, price, quantity, post_only: true, reduce_only: true }
    }

    pub fn reduce_only_maker_sell(symbol: u32, price: i64, quantity: i64) -> (r: Self)
        ensures
            r == (OrderIntent { symbol, side: Side::Sell, price, quantity, post_only: true, reduce_only: true }),
    {
        Self { symbol, side: Side::Sell, price, quantity, post_only: true, reduce_only: true }
    }

    pub fn emergency_reduce_only_taker(symbol: u32, side: Side, price: i64, quantity: i64) -> (r: Self)
        ensures
            r == (OrderIntent { symbol, side, price, quantity, post_only: false, reduce_only: true }),
    {
        Self { symbol, side, price, quantity, post_only: false, reduce_only: true }
    }

    /// Validates the complete execution shape at the domain boundary: an
    /// order is passive, or it explicitly reduces existing exposure.
    pub fn validate(&self) -> (r: Result<(), OrderIntentError>)
        ensures
            !self.admissible_shape() ==> r == Err::<(), OrderIntentError>(OrderIntentError::InvalidShape),
            self.admissible_shape() && !self.post_only && !self.reduce_only ==> r == Err::<(), OrderIntentError>(OrderIntentError::UnscopedAggressor),
            r is Ok <==> (self.admissible_shape() && (self.post_only || self.reduce_only)),
    {
        if !self.is_admissible_shape() {
            return Err(OrderIntentError::InvalidShape);
        }
        if !self.post_only && !self.reduce_only {
            return Err(OrderIntentError::UnscopedAggressor);
        }
        Ok(())
    }

    pub fn is_admissible_shape(&self) -> (r: bool)
        ensures
            r == self.admissible_shape(),
    {
        self.symbol > 0 && self.price > 0 && self.quantity > 0
    }

    pub fn is_emergency_taker(&self) -> (r: bool)
        ensures
            r == (!self.post_only && self.reduce_only),
    {
        !self.post_only && self.reduce_only
    }
}

} // verus!
