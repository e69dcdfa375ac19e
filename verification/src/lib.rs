//! A faucet's core: quota gates that keep any one address, and any one network
//! address, from drawing more than a limit within a window, and the decisions that
//! drive one transfer on an external ledger from its first query to finality.
//!
//! - `quota`: the mathematical model of a quota table, and what holds of it.
//! - `cache`: the quota tracker over one kind of key, and the admission gate made
//!   of two of them.
//! - `clock`: time as plain integers.
//! - `amount`: amounts as decimal text.
//! - `submit`: one transfer on its way to finality, step by step.
//! - `clients`: the ledger backends; `clients::near` makes the signed instructions
//!   of the NEAR ledger, and `clients::wire` holds the calls into its crates.
//! - `state`: a backend with its gates, and what happens to a request for funds.
//! - `config`, `error`: the service's settings and its answers.

pub mod amount;
pub mod cache;
pub mod clients;
pub mod clock;
pub mod config;
pub mod error;
pub mod quota;
pub mod state;
pub mod submit;
