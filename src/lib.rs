//! Static analysis over compiler-produced syntax trees of smart contracts:
//! trees are taken in, indexed in one pass, scanned by independent detectors,
//! and their findings grouped by severity.

pub mod ast;
pub mod centralization_risk;
pub mod context;
pub mod delegate_call_in_loop;
pub mod detector;
pub mod engine;
pub mod ingest;
pub mod instances;
pub mod markdown;
pub mod metrics;
pub mod registry;
pub mod report;
pub mod text;
pub mod weird_erc20_not_handled;
