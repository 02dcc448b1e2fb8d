//! A marketplace for paid work. Requesters post tasks, workers submit
//! proposals, requesters approve or reject them, and a rejected worker can
//! dispute the rejection before an admin, all while the money is held back.
//!
//! The marketplace is a value of type [`state::Dwork`]. Every operation takes
//! what the hosting environment says of the call as a [`types::CallContext`],
//! and either reaches the state that its rule gives or returns an error and
//! changes nothing. The rules are spec functions on the mathematical content
//! of the marketplace, [`state::DworkView`]. What holds of them, of every
//! call listed in [`rules`] and of every state that calls can reach, is proved
//! in [`laws`].

pub mod account;
pub mod admin;
pub mod categories;
pub mod ext;
pub mod laws;
mod proofs;
pub mod proposal;
pub mod report;
pub mod requester_action;
pub mod rules;
pub mod state;
pub mod table;
pub mod task;
pub mod types;
pub mod utils;
pub mod views;
pub mod worker_action;
