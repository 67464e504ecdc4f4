//! Versioned decision audit records shared by live, replay and simulation.
use vstd::prelude::*;

verus! {

pub const DECISION_AUDIT_SCHEMA_VERSION: u16 = 1;

#[derive(Debug, Clone, PartialEq, Eq)]
pub struct DecisionGateAudit {
    pub name: String,
    pub passed: bool,
    pub reason: String,
}

#[derive(Debug, Clone, PartialEq, Eq)]
pub struct DecisionAudit {
    pub schema_version: u16,
    pub decision_id: u64,
    pub exchange_event_time_ms: u64,
    pub received_at_ms: u64,
    pub outcome: String,
    pub final_gate: String,
    pub gates: Vec<DecisionGateAudit>,
    pub book_bid_ticks: Option<i64>,
    pub book_ask_ticks: Option<i64>,
    pub book_bid_quantity: Option<i64>,
    pub book_ask_quantity: Option<i64>,
    pub mark_ticks: Option<i64>,
    pub index_ticks: Option<i64>,
    pub anchor_ticks: i64,
    pub position: i64,
    pub mark_age_ms: Option<u64>,
    pub anchor_age_ms: Option<u64>,
    pub threshold_status: String,
    pub threshold_pico_bps: Option<i64>,
    pub fair_value_ticks: Option<i64>,
    pub liquidity_ratio_bps: Option<i64>,
    pub signal_abs_pico_bps: Option<i64>,
    pub adaptive_relief_pico_bps: i64,
}

} // verus!
