//! Verified core of the AnchorBell trading engine: order and evidence state
//! machines, risk gates, calibration, ledgers and the exchange wire rules.
pub mod action;
pub mod analytics_evidence;
pub mod analytics_validation;
pub mod calibration;
pub mod calibration_store;
pub mod dashboard;
pub mod decimal;
pub mod digest;
pub mod evolution;
pub mod execution;
pub mod keyed;
pub mod ledger;
pub mod live_loop;
pub mod live_runner;
pub mod m8;
pub mod maker_runner;
pub mod market;
pub mod model;
pub mod num;
pub mod observability;
pub mod policy;
pub mod simulation;
pub mod stats;
pub mod text;
