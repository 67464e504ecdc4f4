//! Session checkpoints: the restart state of a trading session, which is
//! only accepted when its net and gross positions agree with its detail.
use crate::keyed::SortedMap;
use crate::num::{abs_int, sat_i64};
use crate::text::owned;
use vstd::prelude::*;

verus! {

pub const SESSION_CHECKPOINT_SCHEMA_VERSION: u16 = 2;

#[derive(Debug, Clone, PartialEq, Eq)]
pub struct SessionCheckpoint {
    pub schema_version: u16,
    pub session_id: String,
    pub environment: String,
    pub symbol: String,
    pub last_event_at_ms: u64,
    /// Signed net position. Independent ledgers may offset one another.
    pub position_ticks: i64,
    /// Sum of absolute positions across the checkpoint scope.
    pub gross_position_ticks: i64,
    /// Per-ledger positions keyed by strategy_label::symbol.
    pub portfolio_positions: SortedMap<i64>,
    pub working_order_ids: Vec<String>,
    pub risk_stopped: bool,
}

#[derive(Debug, Clone, PartialEq, Eq)]
pub enum CheckpointError {
    Io(String),
    Encoding(String),
    UnsupportedSchema(u16),
    EmptySessionId,
    GrossPositionMismatch,
}

/// Left-to-right saturating sum, as `fold(0, i64::saturating_add)`.
pub open spec fn saturating_sum(values: Seq<i64>) -> int
    decreases values.len(),
{
    if values.len() == 0 {
        0
    } else {
        sat_i64(saturating_sum(values.drop_last()) + values.last())
    }
}

/// The absolute value of a position, with `i64::MIN` saturating to `i64::MAX`.
pub open spec fn abs_or_max(v: i64) -> i64 {
    if v == i64::MIN {
        i64::MAX
    } else {
        abs_int(v as int) as i64
    }
}

pub open spec fn abs_values(values: Seq<i64>) -> Seq<i64> {
    values.map_values(|v: i64| abs_or_max(v))
}

pub open spec fn checkpoint_error(c: SessionCheckpoint) -> Option<CheckpointError> {
    let net = saturating_sum(c.portfolio_positions.values());
    let gross = saturating_sum(abs_values(c.portfolio_positions.values()));
    let expected_gross = if c.symbol@ == "PORTFOLIO"@ {
        gross
    } else {
        abs_or_max(c.position_ticks) as int
    };
    if c.schema_version != SESSION_CHECKPOINT_SCHEMA_VERSION {
        Some(CheckpointError::UnsupportedSchema(c.schema_version))
    } else if crate::text::trim_chars(c.session_id@).len() == 0 {
        Some(CheckpointError::EmptySessionId)
    } else if c.gross_position_ticks < 0 {
        Some(CheckpointError::GrossPositionMismatch)
    } else if net != c.position_ticks {
        Some(CheckpointError::GrossPositionMismatch)
    } else if c.gross_position_ticks != expected_gross {
        Some(CheckpointError::GrossPositionMismatch)
    } else {
        None
    }
}

pub(crate) fn abs_or_max_exec(v: i64) -> (r: i64)
    ensures
        r == abs_or_max(v),
{
    if v == i64::MIN {
        i64::MAX
    } else if v < 0 {
        -v
    } else {
        v
    }
}

impl SessionCheckpoint {
    pub fn new(session_id: String, environment: String, symbol: String) -> (r: Self)
        ensures
            r.schema_version == SESSION_CHECKPOINT_SCHEMA_VERSION,
            r.session_id == session_id,
            r.environment == environment,
            r.symbol == symbol,
            r.last_event_at_ms == 0,
            r.position_ticks == 0,
            r.gross_position_ticks == 0,
            r.portfolio_positions.wf(),
            r.portfolio_positions.entries().len() == 0,
            r.working_order_ids@.len() == 0,
            r.risk_stopped,
    {
        Self {
            schema_version: SESSION_CHECKPOINT_SCHEMA_VERSION,
            session_id,
            environment,
            symbol,
            last_event_at_ms: 0,
            position_ticks: 0,
            gross_position_ticks: 0,
            portfolio_positions: SortedMap::new(),
            working_order_ids: Vec::new(),
            risk_stopped: true,
        }
    }

    /// Checks the schema, the session id, and that the net and gross
    /// positions agree with the per-ledger positions.
    pub fn validate(&self) -> (r: Result<(), CheckpointError>)
        ensures
            r is Ok <==> checkpoint_error(*self) is None,
            r matches Err(e) ==> checkpoint_error(*self) == Some(e),
    {
        if self.schema_version != SESSION_CHECKPOINT_SCHEMA_VERSION {
            return Err(CheckpointError::UnsupportedSchema(self.schema_version));
        }
        if crate::text::trim(self.session_id.as_str()).is_empty() {
            return Err(CheckpointError::EmptySessionId);
        }
        if self.gross_position_ticks < 0 {
            return Err(CheckpointError::GrossPositionMismatch);
        }
        let n = self.portfolio_positions.len();
        let mut net: i64 = 0;
        let mut gross: i64 = 0;
        let mut i: usize = 0;
        while i < n
            invariant
                n == self.portfolio_positions.entries().len(),
                i <= n,
                net == saturating_sum(self.portfolio_positions.values().subrange(0, i as int)),
                gross == saturating_sum(abs_values(self.portfolio_positions.values()).subrange(0, i as int)),
            decreases n - i,
        {
            let v = *self.portfolio_positions.value_at(i);
            proof {
                let vals = self.portfolio_positions.values();
                assert(vals.subrange(0, i + 1).drop_last() =~= vals.subrange(0, i as int));
                assert(abs_values(vals).subrange(0, i + 1).drop_last() =~= abs_values(vals).subrange(0, i as int));
            }
            net = crate::num::sat_add_i64(net, v);
            gross = crate::num::sat_add_i64(gross, abs_or_max_exec(v));
            i = i + 1;
        }
        proof {
            let vals = self.portfolio_positions.values();
            assert(vals.subrange(0, n as int) =~= vals);
            assert(abs_values(vals).subrange(0, n as int) =~= abs_values(vals));
        }
        if net != self.position_ticks {
            return Err(CheckpointError::GrossPositionMismatch);
        }
        let portfolio = owned("PORTFOLIO");
        proof { reveal_strlit("PORTFOLIO"); }
        let expected_gross = if self.symbol == portfolio {
            gross
        } else {
            abs_or_max_exec(self.position_ticks)
        };
        if self.gross_position_ticks != expected_gross {
            return Err(CheckpointError::GrossPositionMismatch);
        }
        Ok(())
    }
}

} // verus!
