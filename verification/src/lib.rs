//! Coordination core for independent participants ("tabs") that share one
//! single-writer embedded database. One tab is the leader and executes all
//! queries; the others route their requests to it through a central broker.
//!
//! The crate covers the broker's protocol and state machine: membership and
//! leader derivation by registration order, a read/write access arbiter with
//! FIFO queueing and transaction exclusivity, query routing with response
//! correlation, the participant-side facade, and a bounded connection pool.
//! Message transport and the database engine itself are external
//! collaborators: the host process delivers messages to the broker and
//! performs the sends the broker asks for.

pub mod broker;
pub mod connection_pool;
pub mod coordinator;
pub mod decimal;
pub mod messages;
pub mod registry;
pub mod tab_manager;
pub mod types;
