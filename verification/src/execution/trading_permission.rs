//! The single boundary for every exchange operation that can change trading
//! state.
use vstd::prelude::*;

verus! {

#[derive(Debug, Clone, Copy, PartialEq, Eq, Structural)]
pub struct TradingPermission {
    allowed: bool,
}

impl TradingPermission {
    pub closed spec fn spec_allowed(self) -> bool {
        self.allowed
    }

    /// Orders are allowed only when the operator asked to send them and the
    /// deployment allows them.
    pub fn new(send_orders: bool, deployment_allows_orders: bool) -> (r: Self)
        ensures
            r.spec_allowed() == (send_orders && deployment_allows_orders),
    {
        TradingPermission { allowed: send_orders && deployment_allows_orders }
    }

    pub fn allowed(self) -> (r: bool)
        ensures
            r == self.spec_allowed(),
    {
        self.allowed
    }

    /// Hands an operation back only when orders are allowed; a denied
    /// operation is dropped unrun, so it cannot touch the network. The
    /// caller runs what comes back and reports its outcome as `Some`, and a
    /// denial as `None`.
    pub fn permit<F>(self, operation: F) -> (r: Option<F>)
        ensures
            self.spec_allowed() ==> r == Some(operation),
            !self.spec_allowed() ==> r is None,
    {
        if self.allowed {
            Some(operation)
        } else {
            None
        }
    }
}

} // verus!
