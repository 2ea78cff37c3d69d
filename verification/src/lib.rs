//! Pacta: a thin, durable lifecycle contract, verified.
//!
//! - [`contract`]: the lifecycle vocabulary (`Pact`, `Retainer`, `Claim`, `Timestamp`,
//!   `Outcome`) and the `Registry` trait a backend implements.
//! - [`lifecycle`]: the pure lifecycle decisions every backend composes over.
//! - [`kernel`]: the sans-I/O step kernel that decides claim, execute and settle.
//! - [`executor`]: the execution seam (`Executor`, `Middleware`, `Execution`).
//! - [`driver`]: the mechanical loop that performs what the kernel decides.
//! - [`memory`]: the in-memory reference `Registry`.
//! - [`memory_async`]: the state of the in-memory reference backend of the async binding.
//! - [`ledger`]: the pacts and states both in-memory backends hold.
//! - [`text`]: lines, substring search, and trimming over character sequences.
//! - [`governance`]: the workspace's architectural rules and the prose and source checks.
pub mod conformance;
pub mod contract;
pub mod driver;
pub mod executor;
pub mod governance;
pub mod kernel;
pub mod ledger;
pub mod lifecycle;
pub mod memory;
pub mod memory_async;
pub mod text;

pub use contract::{Claim, Outcome, Pact, Registry, Retainer, Timestamp};
pub use driver::{Driver, DriverError, Step};
pub use executor::{Execution, Executor, Middleware};
pub use lifecycle::Transition;
