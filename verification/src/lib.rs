//! Decision logic of a node that takes part in a bully-algorithm leader election
//! and serves fortune cookies from the elected leader.
pub mod address;
pub mod clock;
pub mod config;
pub mod cookie;
pub mod discovery;
pub mod election;
pub mod messages;
pub mod state;
pub mod text;
