//! The two roles of a cluster: the master, which proposes, counts votes and
//! records what was decided, and the worker, which votes.

pub mod laws;
pub mod master;
pub mod worker;

pub use master::Master;
pub use worker::Worker;
